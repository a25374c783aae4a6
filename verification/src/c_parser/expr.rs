//! Evaluation of the integer constant expressions of `#define`s.
//!
//! An expression is trimmed; a plain integer literal (decimal, or hex after
//! `0x`) is its own value. Otherwise it is tokenized and parsed with
//! precedence climbing over `| ^ & << >> + - * / %` (lowest to highest),
//! unary `+ - ~ !`, parentheses, `RGB(r, g, b)` and identifiers, which are
//! evaluated from their definitions. Evaluation fails on malformed text, an
//! unknown identifier, a division by zero, a definition that refers back to
//! itself, or a nesting of definitions more than 128 deep. Arithmetic is on
//! `i64`; what would overflow it is excluded by the callers' preconditions.
//! A second mode, used for list files and Python enums, also has the
//! comparisons `< > <= >= == !=` and the short-circuit `&& ||`, binding
//! as in C.
use vstd::prelude::*;
use crate::c_parser::defines::{CDefine, define_view, defines_in, parse_defines};
use crate::text::{lines, trim, is_ascii_ws, is_ascii_digit, is_ident_start, is_ident_char, digit_val,
    digits_value, all_digits, parse_i64, parse_i64_hex, has_prefix_at, chars_of, trim_bounds,
    parse_int_range, is_ascii_whitespace, is_digit, is_ident_start_char, is_ident_continue_char,
    digit_value, prefix_at};

verus! {

pub const MAX_EVAL_DEPTH: usize = 128;

/// A token of an expression.
pub ghost enum STok {
    Number(i64),
    Ident(Seq<char>),
    Plus,
    Minus,
    Star,
    Slash,
    Percent,
    And,
    Or,
    Xor,
    Tilde,
    Not,
    LShift,
    RShift,
    LParen,
    RParen,
    Comma,
    LogAnd,
    LogOr,
    Eq,
    Ne,
    Lt,
    Gt,
    Le,
    Ge,
}

/// The end of the run of ASCII whitespace from `i`.
pub open spec fn skip_ws(s: Seq<char>, i: int) -> int
    decreases s.len() - i,
{
    if 0 <= i < s.len() && is_ascii_ws(s[i]) {
        skip_ws(s, i + 1)
    } else {
        i
    }
}

/// The end of the run of decimal digits from `i`.
pub open spec fn digits_end(s: Seq<char>, i: int) -> int
    decreases s.len() - i,
{
    if 0 <= i < s.len() && is_ascii_digit(s[i]) {
        digits_end(s, i + 1)
    } else {
        i
    }
}

/// The end of the run of hexadecimal digits from `i`.
pub open spec fn hex_end(s: Seq<char>, i: int) -> int
    decreases s.len() - i,
{
    if 0 <= i < s.len() && digit_val(s[i], 16) >= 0 {
        hex_end(s, i + 1)
    } else {
        i
    }
}

/// The end of the run of identifier characters from `i`.
pub open spec fn ident_end(s: Seq<char>, i: int) -> int
    decreases s.len() - i,
{
    if 0 <= i < s.len() && is_ident_char(s[i]) {
        ident_end(s, i + 1)
    } else {
        i
    }
}

/// The number token at `j`: hex after `0x`/`0X` when a character follows
/// the prefix, else decimal; a value beyond `i64` is malformed.
pub open spec fn number_at(s: Seq<char>, j: int) -> Option<(STok, int)> {
    if j + 2 < s.len() && s[j] == '0' && (s[j + 1] == 'x' || s[j + 1] == 'X') {
        let e = hex_end(s, j + 2);
        let v = digits_value(s.subrange(j + 2, e), 16);
        if e == j + 2 || v > i64::MAX {
            None
        } else {
            Some((STok::Number(v as i64), e))
        }
    } else {
        let e = digits_end(s, j);
        let v = digits_value(s.subrange(j, e), 10);
        if v > i64::MAX {
            None
        } else {
            Some((STok::Number(v as i64), e))
        }
    }
}

/// The token that starts at `j` and where it ends; `None` for a character
/// that starts no token. Only with `ext` are `< > <= >= == != && ||`
/// tokens (without it a lone `<` or `>` starts none, and `&&`, `||` are two
/// bitwise operators).
pub open spec fn token_at(s: Seq<char>, j: int, ext: bool) -> Option<(STok, int)> {
    let c = s[j];
    let next_is = |x: char| j + 1 < s.len() && s[j + 1] == x;
    if is_ascii_digit(c) {
        number_at(s, j)
    } else if is_ident_start(c) {
        Some((STok::Ident(s.subrange(j, ident_end(s, j))), ident_end(s, j)))
    } else if c == '<' {
        if next_is('<') {
            Some((STok::LShift, j + 2))
        } else if !ext {
            None
        } else if next_is('=') {
            Some((STok::Le, j + 2))
        } else {
            Some((STok::Lt, j + 1))
        }
    } else if c == '>' {
        if next_is('>') {
            Some((STok::RShift, j + 2))
        } else if !ext {
            None
        } else if next_is('=') {
            Some((STok::Ge, j + 2))
        } else {
            Some((STok::Gt, j + 1))
        }
    } else if ext && c == '=' {
        if next_is('=') { Some((STok::Eq, j + 2)) } else { None }
    } else if ext && c == '!' && next_is('=') {
        Some((STok::Ne, j + 2))
    } else if ext && c == '&' && next_is('&') {
        Some((STok::LogAnd, j + 2))
    } else if ext && c == '|' && next_is('|') {
        Some((STok::LogOr, j + 2))
    } else {
        match single_char_token(c) {
            Some(t) => Some((t, j + 1)),
            None => None,
        }
    }
}

pub open spec fn single_char_token(c: char) -> Option<STok> {
    if c == '+' {
        Some(STok::Plus)
    } else if c == '-' {
        Some(STok::Minus)
    } else if c == '*' {
        Some(STok::Star)
    } else if c == '/' {
        Some(STok::Slash)
    } else if c == '%' {
        Some(STok::Percent)
    } else if c == '&' {
        Some(STok::And)
    } else if c == '|' {
        Some(STok::Or)
    } else if c == '^' {
        Some(STok::Xor)
    } else if c == '~' {
        Some(STok::Tilde)
    } else if c == '!' {
        Some(STok::Not)
    } else if c == '(' {
        Some(STok::LParen)
    } else if c == ')' {
        Some(STok::RParen)
    } else if c == ',' {
        Some(STok::Comma)
    } else {
        None
    }
}

/// The tokens of `s` from `i`; `None` when some character starts no token.
pub open spec fn lex(s: Seq<char>, i: int, ext: bool) -> Option<Seq<STok>>
    decreases s.len() - i,
{
    let j = skip_ws(s, i);
    if j >= s.len() {
        Some(Seq::empty())
    } else {
        match token_at(s, j, ext) {
            None => None,
            Some((t, k)) => if i < k <= s.len() {
                match lex(s, k, ext) {
                    Some(rest) => Some(seq![t] + rest),
                    None => None,
                }
            } else {
                None
            },
        }
    }
}

/// How an evaluation ends.
pub ghost enum Outcome {
    Value(i64),
    Fail,
    /// The original arithmetic would overflow.
    Panic,
}

/// How a parse of tokens ends: a value and the position after it.
pub ghost enum Parsed {
    Done(i64, int),
    Fail,
    Panic,
}

/// Binding strength of a binary operator; 0 for any other token.
pub open spec fn prec(t: STok) -> int {
    match t {
        STok::LogOr => 1,
        STok::LogAnd => 2,
        STok::Or => 3,
        STok::Xor => 4,
        STok::And => 5,
        STok::Eq | STok::Ne => 6,
        STok::Lt | STok::Gt | STok::Le | STok::Ge => 7,
        STok::LShift | STok::RShift => 8,
        STok::Plus | STok::Minus => 9,
        STok::Star | STok::Slash | STok::Percent => 10,
        _ => 0,
    }
}

pub open spec fn fits_i64(v: int) -> bool {
    i64::MIN <= v <= i64::MAX
}

pub open spec fn abs(v: int) -> int {
    if v < 0 { -v } else { v }
}

/// Division rounding toward zero.
pub open spec fn tdiv(a: int, b: int) -> int {
    if (a >= 0) == (b >= 0) { abs(a) / abs(b) } else { -(abs(a) / abs(b)) }
}

/// The remainder of `tdiv`: the sign of `a`, the size of `|a| mod |b|`.
pub open spec fn trem(a: int, b: int) -> int {
    if a >= 0 { abs(a) % abs(b) } else { -(abs(a) % abs(b)) }
}

/// A binary operator on two values: shifts by a negative or too large
/// amount, and `+ - * / %` past `i64`, would panic; division by zero fails.
pub open spec fn apply_op(op: STok, l: i64, r: i64) -> Outcome {
    match op {
        STok::Plus => if fits_i64(l + r) { Outcome::Value((l + r) as i64) } else { Outcome::Panic },
        STok::Minus => if fits_i64(l - r) { Outcome::Value((l - r) as i64) } else { Outcome::Panic },
        STok::Star => if fits_i64(l * r) { Outcome::Value((l * r) as i64) } else { Outcome::Panic },
        STok::Slash => if r == 0 {
            Outcome::Fail
        } else if l == i64::MIN && r == -1 {
            Outcome::Panic
        } else {
            Outcome::Value(tdiv(l as int, r as int) as i64)
        },
        STok::Percent => if r == 0 {
            Outcome::Fail
        } else if l == i64::MIN && r == -1 {
            Outcome::Panic
        } else {
            Outcome::Value(trem(l as int, r as int) as i64)
        },
        STok::And => Outcome::Value(l & r),
        STok::Or => Outcome::Value(l | r),
        STok::Xor => Outcome::Value(l ^ r),
        STok::LShift => if r < 0 || r >= 64 {
            Outcome::Panic
        } else {
            Outcome::Value(((l as u64) << (r as u64)) as i64)
        },
        STok::RShift => if r < 0 || r >= 64 { Outcome::Panic } else { Outcome::Value(l >> (r as u64)) },
        STok::Eq => Outcome::Value(if l == r { 1 } else { 0 }),
        STok::Ne => Outcome::Value(if l != r { 1 } else { 0 }),
        STok::Lt => Outcome::Value(if l < r { 1 } else { 0 }),
        STok::Gt => Outcome::Value(if l > r { 1 } else { 0 }),
        STok::Le => Outcome::Value(if l <= r { 1 } else { 0 }),
        STok::Ge => Outcome::Value(if l >= r { 1 } else { 0 }),
        _ => Outcome::Value(l),
    }
}

/// A unary operator on a value.
pub open spec fn apply_unary(op: STok, v: i64) -> Outcome {
    match op {
        STok::Plus => Outcome::Value(v),
        STok::Minus => if v == i64::MIN { Outcome::Panic } else { Outcome::Value((-v) as i64) },
        STok::Tilde => Outcome::Value(!v),
        STok::Not => Outcome::Value(if v == 0 { 1 } else { 0 }),
        _ => Outcome::Fail,
    }
}

/// `RGB(r, g, b)`: `(b << 10) | (g << 5) | r`.
pub open spec fn rgb(r: i64, g: i64, b: i64) -> i64 {
    ((((b as u64) << 10u64) as i64) | (((g as u64) << 5u64) as i64)) | r
}

/// The text of the last definition of `name`.
pub open spec fn lookup(defs: Seq<(Seq<char>, Seq<char>)>, name: Seq<char>) -> Option<Seq<char>>
    decreases defs.len(),
{
    if defs.len() == 0 {
        None
    } else if defs.last().0 == name {
        Some(defs.last().1)
    } else {
        lookup(defs.drop_last(), name)
    }
}

/// The value of a plain integer literal: hex after `0x`/`0X`, else decimal,
/// each with an optional sign.
pub open spec fn numeric(e: Seq<char>) -> Option<int> {
    if has_prefix_at(e, 0, "0x"@) || has_prefix_at(e, 0, "0X"@) {
        parse_i64_hex(e.skip(2))
    } else {
        parse_i64(e)
    }
}

/// The value of expression `e0` under the definitions `defs`, evaluated at
/// nesting `depth` while the expressions in `vis` are being evaluated.
pub open spec fn eval(e0: Seq<char>, defs: Seq<(Seq<char>, Seq<char>)>, depth: int, vis: Seq<Seq<char>>) -> Outcome {
    eval_x(e0, defs, depth, vis, false)
}

/// `eval`, where with `ext` the comparisons `< > <= >= == !=` (giving 1 or
/// 0) and the short-circuit `&&`, `||` are also operators.
pub open spec fn eval_x(e0: Seq<char>, defs: Seq<(Seq<char>, Seq<char>)>, depth: int, vis: Seq<Seq<char>>, ext: bool) -> Outcome
    decreases 129 - depth, 1int, 0int, 0int,
{
    if depth > 128 || depth < 0 {
        Outcome::Fail
    } else {
        let e = trim(e0);
        if e.len() == 0 {
            Outcome::Fail
        } else {
            match numeric(e) {
                Some(v) => Outcome::Value(v as i64),
                None => if vis.contains(e) {
                    Outcome::Fail
                } else {
                    match lex(e, 0, ext) {
                        None => Outcome::Fail,
                        Some(ts) => if ts.len() == 0 {
                            Outcome::Fail
                        } else {
                            match parse_expr(ts, 0, 0, defs, depth, vis.push(e), ext, true) {
                                Parsed::Done(v, p) => if p == ts.len() { Outcome::Value(v) } else { Outcome::Fail },
                                Parsed::Fail => Outcome::Fail,
                                Parsed::Panic => Outcome::Panic,
                            }
                        },
                    }
                },
            }
        }
    }
}

/// An expression from `pos` whose operators bind at least `minp`; when not
/// `live` it is only parsed (a skipped operand of `&&` or `||`) and counts
/// as 0.
pub open spec fn parse_expr(
    ts: Seq<STok>,
    pos: int,
    minp: int,
    defs: Seq<(Seq<char>, Seq<char>)>,
    depth: int,
    vis: Seq<Seq<char>>,
    ext: bool,
    live: bool,
) -> Parsed
    decreases 129 - depth, 0int, ts.len() - pos, 2int,
{
    if depth > 128 || depth < 0 || pos < 0 || pos >= ts.len() {
        Parsed::Fail
    } else {
        match parse_primary(ts, pos, defs, depth, vis, ext, live) {
            Parsed::Done(left, p) => if pos < p <= ts.len() {
                parse_loop(ts, p, left, minp, defs, depth, vis, ext, live)
            } else {
                Parsed::Fail
            },
            other => other,
        }
    }
}

/// Whether `&&` or `||` with this left value skips its right operand.
pub open spec fn short_circuits(op: STok, left: i64) -> bool {
    if op == STok::LogAnd { left == 0 } else { left != 0 }
}

/// Binary operators from `pos` applied to `left`, as long as they bind at
/// least `minp`; the right operand binds one level tighter.
pub open spec fn parse_loop(
    ts: Seq<STok>,
    pos: int,
    left: i64,
    minp: int,
    defs: Seq<(Seq<char>, Seq<char>)>,
    depth: int,
    vis: Seq<Seq<char>>,
    ext: bool,
    live: bool,
) -> Parsed
    decreases 129 - depth, 0int, ts.len() - pos, 1int,
{
    if depth > 128 || depth < 0 || pos < 0 || pos > ts.len() {
        Parsed::Fail
    } else if pos == ts.len() || prec(ts[pos]) < minp || prec(ts[pos]) == 0 {
        Parsed::Done(left, pos)
    } else if ts[pos] == STok::LogAnd || ts[pos] == STok::LogOr {
        let skip = short_circuits(ts[pos], left);
        match parse_expr(ts, pos + 1, prec(ts[pos]) + 1, defs, depth, vis, ext, live && !skip) {
            Parsed::Done(right, q) => if pos < q <= ts.len() {
                let v: i64 = if !live {
                    0
                } else if skip {
                    if ts[pos] == STok::LogAnd { 0 } else { 1 }
                } else if right != 0 {
                    1
                } else {
                    0
                };
                parse_loop(ts, q, v, minp, defs, depth, vis, ext, live)
            } else {
                Parsed::Fail
            },
            other => other,
        }
    } else {
        match parse_expr(ts, pos + 1, prec(ts[pos]) + 1, defs, depth, vis, ext, live) {
            Parsed::Done(right, q) => if !live {
                if pos < q <= ts.len() {
                    parse_loop(ts, q, 0, minp, defs, depth, vis, ext, live)
                } else {
                    Parsed::Fail
                }
            } else {
                match apply_op(ts[pos], left, right) {
                    Outcome::Value(v) => if pos < q <= ts.len() {
                        parse_loop(ts, q, v, minp, defs, depth, vis, ext, live)
                    } else {
                        Parsed::Fail
                    },
                    Outcome::Fail => Parsed::Fail,
                    Outcome::Panic => Parsed::Panic,
                }
            },
            other => other,
        }
    }
}

/// The token at `pos` is `t`.
pub open spec fn tok_is(ts: Seq<STok>, pos: int, t: STok) -> bool {
    0 <= pos < ts.len() && ts[pos] == t
}

/// A primary at `pos`: a number, an identifier (evaluated from its last
/// definition), `RGB(r, g, b)`, a parenthesized expression, or a unary
/// operator applied to a primary.
pub open spec fn parse_primary(
    ts: Seq<STok>,
    pos: int,
    defs: Seq<(Seq<char>, Seq<char>)>,
    depth: int,
    vis: Seq<Seq<char>>,
    ext: bool,
    live: bool,
) -> Parsed
    decreases 129 - depth, 0int, ts.len() - pos, 0int,
{
    if depth > 128 || depth < 0 || pos < 0 || pos >= ts.len() {
        Parsed::Fail
    } else {
        match ts[pos] {
            STok::Number(n) => Parsed::Done(n, pos + 1),
            STok::Ident(id) => if id == "RGB"@ && tok_is(ts, pos + 1, STok::LParen) {
                match parse_expr(ts, pos + 2, 0, defs, depth, vis, ext, live) {
                    Parsed::Done(r, p1) => if tok_is(ts, p1, STok::Comma) && pos < p1 {
                        match parse_expr(ts, p1 + 1, 0, defs, depth, vis, ext, live) {
                            Parsed::Done(g, p2) => if tok_is(ts, p2, STok::Comma) && p1 < p2 {
                                match parse_expr(ts, p2 + 1, 0, defs, depth, vis, ext, live) {
                                    Parsed::Done(b, p3) => if tok_is(ts, p3, STok::RParen) {
                                        Parsed::Done(if live { rgb(r, g, b) } else { 0 }, p3 + 1)
                                    } else {
                                        Parsed::Fail
                                    },
                                    other => other,
                                }
                            } else {
                                Parsed::Fail
                            },
                            other => other,
                        }
                    } else {
                        Parsed::Fail
                    },
                    other => other,
                }
            } else if !live {
                Parsed::Done(0, pos + 1)
            } else {
                match lookup(defs, id) {
                    Some(text) => match eval_x(text, defs, depth + 1, vis, ext) {
                        Outcome::Value(v) => Parsed::Done(v, pos + 1),
                        Outcome::Fail => Parsed::Fail,
                        Outcome::Panic => Parsed::Panic,
                    },
                    None => Parsed::Fail,
                }
            },
            STok::LParen => match parse_expr(ts, pos + 1, 0, defs, depth, vis, ext, live) {
                Parsed::Done(v, q) => if tok_is(ts, q, STok::RParen) {
                    Parsed::Done(v, q + 1)
                } else {
                    Parsed::Fail
                },
                other => other,
            },
            STok::Plus | STok::Minus | STok::Tilde | STok::Not => match parse_primary(
                ts,
                pos + 1,
                defs,
                depth,
                vis,
                ext,
                live,
            ) {
                Parsed::Done(v, q) => if !live {
                    Parsed::Done(0, q)
                } else {
                    match apply_unary(ts[pos], v) {
                        Outcome::Value(x) => Parsed::Done(x, q),
                        Outcome::Fail => Parsed::Fail,
                        Outcome::Panic => Parsed::Panic,
                    }
                },
                other => other,
            },
            _ => Parsed::Fail,
        }
    }
}

// ----- tokenizing -----

/// A token of an expression being evaluated.
enum Token {
    Number(i64),
    Ident(Vec<char>),
    Plus,
    Minus,
    Star,
    Slash,
    Percent,
    And,
    Or,
    Xor,
    Tilde,
    Not,
    LShift,
    RShift,
    LParen,
    RParen,
    Comma,
    LogAnd,
    LogOr,
    Eq,
    Ne,
    Lt,
    Gt,
    Le,
    Ge,
}

spec fn tok_view(t: Token) -> STok {
    match t {
        Token::Number(n) => STok::Number(n),
        Token::Ident(v) => STok::Ident(v@),
        Token::Plus => STok::Plus,
        Token::Minus => STok::Minus,
        Token::Star => STok::Star,
        Token::Slash => STok::Slash,
        Token::Percent => STok::Percent,
        Token::And => STok::And,
        Token::Or => STok::Or,
        Token::Xor => STok::Xor,
        Token::Tilde => STok::Tilde,
        Token::Not => STok::Not,
        Token::LShift => STok::LShift,
        Token::RShift => STok::RShift,
        Token::LParen => STok::LParen,
        Token::RParen => STok::RParen,
        Token::Comma => STok::Comma,
        Token::LogAnd => STok::LogAnd,
        Token::LogOr => STok::LogOr,
        Token::Eq => STok::Eq,
        Token::Ne => STok::Ne,
        Token::Lt => STok::Lt,
        Token::Gt => STok::Gt,
        Token::Le => STok::Le,
        Token::Ge => STok::Ge,
    }
}

spec fn toks_view(ts: Seq<Token>) -> Seq<STok> {
    ts.map_values(|t: Token| tok_view(t))
}

proof fn lemma_skip_ws(s: Seq<char>, i: int, j: int)
    requires
        0 <= i <= j <= s.len(),
        forall|k: int| i <= k < j ==> is_ascii_ws(#[trigger] s[k]),
        j == s.len() || !is_ascii_ws(s[j]),
    ensures
        skip_ws(s, i) == j,
    decreases j - i,
{
    if i < j {
        lemma_skip_ws(s, i + 1, j);
    }
}

proof fn lemma_digits_end(s: Seq<char>, i: int, j: int)
    requires
        0 <= i <= j <= s.len(),
        forall|k: int| i <= k < j ==> is_ascii_digit(#[trigger] s[k]),
        j == s.len() || !is_ascii_digit(s[j]),
    ensures
        digits_end(s, i) == j,
    decreases j - i,
{
    if i < j {
        lemma_digits_end(s, i + 1, j);
    }
}

proof fn lemma_hex_end(s: Seq<char>, i: int, j: int)
    requires
        0 <= i <= j <= s.len(),
        forall|k: int| i <= k < j ==> digit_val(#[trigger] s[k], 16) >= 0,
        j == s.len() || digit_val(s[j], 16) < 0,
    ensures
        hex_end(s, i) == j,
    decreases j - i,
{
    if i < j {
        lemma_hex_end(s, i + 1, j);
    }
}

proof fn lemma_ident_end(s: Seq<char>, i: int, j: int)
    requires
        0 <= i <= j <= s.len(),
        forall|k: int| i <= k < j ==> is_ident_char(#[trigger] s[k]),
        j == s.len() || !is_ident_char(s[j]),
    ensures
        ident_end(s, i) == j,
    decreases j - i,
{
    if i < j {
        lemma_ident_end(s, i + 1, j);
    }
}

/// The number of a run of `radix` digits read as `str::parse` reads it.
fn digit_run_value(s: &Vec<char>, lo: usize, hi: usize, radix: u32) -> (r: Option<i64>)
    requires
        lo < hi <= s@.len(),
        radix == 10 || radix == 16,
        forall|k: int| lo <= k < hi ==> digit_val(#[trigger] s@[k], radix as int) >= 0,
    ensures
        r == (if digits_value(s@.subrange(lo as int, hi as int), radix as int) <= i64::MAX {
            Some(digits_value(s@.subrange(lo as int, hi as int), radix as int) as i64)
        } else {
            None::<i64>
        }),
{
    let ghost t = s@.subrange(lo as int, hi as int);
    proof {
        assert(all_digits(t, radix as int)) by {
            assert forall|i: int| 0 <= i < t.len() implies digit_val(#[trigger] t[i], radix as int) >= 0 by {
                assert(t[i] == s@[lo + i]);
            }
        }
        assert(t[0] != '+') by {
            assert(t[0] == s@[lo as int]);
        }
        crate::text::lemma_digits_value_nonneg(t, radix as int);
    }
    match parse_int_range(s, lo, hi, radix, false, 0, 0x7fff_ffff_ffff_ffff) {
        Some(v) => Some(v as i64),
        None => None,
    }
}

fn copy_chars(s: &Vec<char>, lo: usize, hi: usize) -> (v: Vec<char>)
    requires
        lo <= hi <= s@.len(),
    ensures
        v@ == s@.subrange(lo as int, hi as int),
{
    let mut v: Vec<char> = Vec::new();
    let mut i = lo;
    while i < hi
        invariant
            lo <= i <= hi <= s@.len(),
            v@ == s@.subrange(lo as int, i as int),
        decreases hi - i,
    {
        v.push(s[i]);
        i = i + 1;
        assert(v@ =~= s@.subrange(lo as int, i as int));
    }
    v
}

/// The token at `j` and where it ends.
fn token_at_exec(s: &Vec<char>, j: usize, ext: bool) -> (r: Option<(Token, usize)>)
    requires
        j < s@.len(),
    ensures
        match token_at(s@, j as int, ext) {
            Some((t, k)) => r matches Some(x) && tok_view(x.0) == t && x.1 == k,
            None => r is None,
        },
{
    let c = s[j];
    let n = s.len();
    if is_digit(c) {
        if n - j > 2 && c == '0' && (s[j + 1] == 'x' || s[j + 1] == 'X') {
            let mut e = j + 2;
            while e < n && digit_value(s[e], 16) >= 0
                invariant
                    j + 2 <= e <= n == s@.len(),
                    forall|k: int| j + 2 <= k < e ==> digit_val(#[trigger] s@[k], 16) >= 0,
                decreases n - e,
            {
                e = e + 1;
            }
            proof {
                lemma_hex_end(s@, j + 2, e as int);
            }
            if e == j + 2 {
                return None;
            }
            match digit_run_value(s, j + 2, e, 16) {
                Some(v) => Some((Token::Number(v), e)),
                None => None,
            }
        } else {
            let mut e = j;
            while e < n && is_digit(s[e])
                invariant
                    j <= e <= n == s@.len(),
                    forall|k: int| j <= k < e ==> is_ascii_digit(#[trigger] s@[k]),
                decreases n - e,
            {
                e = e + 1;
            }
            proof {
                lemma_digits_end(s@, j as int, e as int);
                assert forall|k: int| j <= k < e implies digit_val(#[trigger] s@[k], 10) >= 0 by {
                    assert(is_ascii_digit(s@[k]));
                }
            }
            match digit_run_value(s, j, e, 10) {
                Some(v) => Some((Token::Number(v), e)),
                None => None,
            }
        }
    } else if is_ident_start_char(c) {
        let mut e = j;
        while e < n && is_ident_continue_char(s[e])
            invariant
                j <= e <= n == s@.len(),
                forall|k: int| j <= k < e ==> is_ident_char(#[trigger] s@[k]),
            decreases n - e,
        {
            e = e + 1;
        }
        proof {
            lemma_ident_end(s@, j as int, e as int);
        }
        Some((Token::Ident(copy_chars(s, j, e)), e))
    } else if c == '<' {
        if j + 1 < n && s[j + 1] == '<' {
            Some((Token::LShift, j + 2))
        } else if !ext {
            None
        } else if j + 1 < n && s[j + 1] == '=' {
            Some((Token::Le, j + 2))
        } else {
            Some((Token::Lt, j + 1))
        }
    } else if c == '>' {
        if j + 1 < n && s[j + 1] == '>' {
            Some((Token::RShift, j + 2))
        } else if !ext {
            None
        } else if j + 1 < n && s[j + 1] == '=' {
            Some((Token::Ge, j + 2))
        } else {
            Some((Token::Gt, j + 1))
        }
    } else if ext && c == '=' {
        if j + 1 < n && s[j + 1] == '=' {
            Some((Token::Eq, j + 2))
        } else {
            None
        }
    } else if ext && c == '!' && j + 1 < n && s[j + 1] == '=' {
        Some((Token::Ne, j + 2))
    } else if ext && c == '&' && j + 1 < n && s[j + 1] == '&' {
        Some((Token::LogAnd, j + 2))
    } else if ext && c == '|' && j + 1 < n && s[j + 1] == '|' {
        Some((Token::LogOr, j + 2))
    } else {
        let t = if c == '+' {
            Token::Plus
        } else if c == '-' {
            Token::Minus
        } else if c == '*' {
            Token::Star
        } else if c == '/' {
            Token::Slash
        } else if c == '%' {
            Token::Percent
        } else if c == '&' {
            Token::And
        } else if c == '|' {
            Token::Or
        } else if c == '^' {
            Token::Xor
        } else if c == '~' {
            Token::Tilde
        } else if c == '!' {
            Token::Not
        } else if c == '(' {
            Token::LParen
        } else if c == ')' {
            Token::RParen
        } else if c == ',' {
            Token::Comma
        } else {
            return None;
        };
        Some((t, j + 1))
    }
}

/// The tokens of `s`.
fn lex_exec(s: &Vec<char>, ext: bool) -> (r: Option<Vec<Token>>)
    ensures
        match lex(s@, 0, ext) {
            Some(ts) => r matches Some(v) && toks_view(v@) == ts,
            None => r is None,
        },
{
    let n = s.len();
    let mut out: Vec<Token> = Vec::new();
    let mut i: usize = 0;
    loop
        invariant
            n == s@.len(),
            i <= n,
            lex(s@, 0, ext) == match lex(s@, i as int, ext) {
                Some(rest) => Some(toks_view(out@) + rest),
                None => None::<Seq<STok>>,
            },
        decreases n - i,
    {
        let mut j = i;
        while j < n && is_ascii_whitespace(s[j])
            invariant
                i <= j <= n == s@.len(),
                forall|k: int| i <= k < j ==> is_ascii_ws(#[trigger] s@[k]),
            decreases n - j,
        {
            j = j + 1;
        }
        proof {
            lemma_skip_ws(s@, i as int, j as int);
        }
        if j >= n {
            assert(toks_view(out@) + Seq::<STok>::empty() =~= toks_view(out@));
            return Some(out);
        }
        match token_at_exec(s, j, ext) {
            None => {
                return None;
            },
            Some((t, k)) => {
                if k <= i || k > n {
                    return None;
                }
                let ghost old_out = out@;
                out.push(t);
                proof {
                    assert(toks_view(out@) =~= toks_view(old_out).push(tok_view(t)));
                    match lex(s@, k as int, ext) {
                        Some(rest) => {
                            assert(toks_view(out@) + rest =~= toks_view(old_out) + (seq![tok_view(t)] + rest));
                        },
                        None => {},
                    }
                }
                i = k;
            },
        }
    }
}

// ----- evaluating -----

/// The result of a parse step: a value and the position after it.
enum Step {
    Done(i64, usize),
    Fail,
}

spec fn step_is(r: Step, p: Parsed) -> bool {
    match r {
        Step::Done(v, q) => p == Parsed::Done(v, q as int),
        Step::Fail => p == Parsed::Fail,
    }
}

/// The names and texts of a list of defines.
pub open spec fn defs_view(defs: Seq<CDefine>) -> Seq<(Seq<char>, Seq<char>)> {
    defs.map_values(|d: CDefine| define_view(d))
}

spec fn vis_view(v: Seq<Vec<char>>) -> Seq<Seq<char>> {
    v.map_values(|x: Vec<char>| x@)
}

fn tdiv_exec(l: i64, r: i64) -> (v: i64)
    requires
        r != 0,
        !(l == i64::MIN && r == -1),
    ensures
        v as int == tdiv(l as int, r as int),
{
    let ua: u64 = if l < 0 { (-(l as i128)) as u64 } else { l as u64 };
    let ub: u64 = if r < 0 { (-(r as i128)) as u64 } else { r as u64 };
    let q = ua / ub;
    assert(q <= ua) by (nonlinear_arith)
        requires q == ua / ub, ub >= 1;
    if (l >= 0) == (r >= 0) {
        proof {
            if q == 0x8000_0000_0000_0000 {
                assert(ua == 0x8000_0000_0000_0000);
                assert(ub >= 2);
                assert(q * ub <= ua) by (nonlinear_arith)
                    requires q == ua / ub, ub >= 1;
                assert(q * ub >= q * 2) by (nonlinear_arith)
                    requires ub >= 2;
            }
        }
        q as i64
    } else {
        (-(q as i128)) as i64
    }
}

fn trem_exec(l: i64, r: i64) -> (v: i64)
    requires
        r != 0,
    ensures
        v as int == trem(l as int, r as int),
{
    let ua: u64 = if l < 0 { (-(l as i128)) as u64 } else { l as u64 };
    let ub: u64 = if r < 0 { (-(r as i128)) as u64 } else { r as u64 };
    let m = ua % ub;
    if l >= 0 {
        m as i64
    } else {
        -(m as i64)
    }
}

fn apply_op_exec(op: &Token, l: i64, r: i64) -> (o: Option<i64>)
    requires
        !(apply_op(tok_view(*op), l, r) is Panic),
    ensures
        match apply_op(tok_view(*op), l, r) {
            Outcome::Value(v) => o == Some(v),
            _ => o is None,
        },
{
    match op {
        Token::Plus => Some(l + r),
        Token::Minus => Some(l - r),
        Token::Star => Some(l * r),
        Token::Slash => if r == 0 {
            None
        } else {
            Some(tdiv_exec(l, r))
        },
        Token::Percent => if r == 0 {
            None
        } else {
            Some(trem_exec(l, r))
        },
        Token::And => Some(l & r),
        Token::Or => Some(l | r),
        Token::Xor => Some(l ^ r),
        Token::LShift => Some(((l as u64) << (r as u64)) as i64),
        Token::RShift => Some(l >> (r as u64)),
        Token::Eq => Some(if l == r { 1 } else { 0 }),
        Token::Ne => Some(if l != r { 1 } else { 0 }),
        Token::Lt => Some(if l < r { 1 } else { 0 }),
        Token::Gt => Some(if l > r { 1 } else { 0 }),
        Token::Le => Some(if l <= r { 1 } else { 0 }),
        Token::Ge => Some(if l >= r { 1 } else { 0 }),
        _ => Some(l),
    }
}

fn apply_unary_exec(op: &Token, v: i64) -> (o: Option<i64>)
    requires
        !(apply_unary(tok_view(*op), v) is Panic),
    ensures
        match apply_unary(tok_view(*op), v) {
            Outcome::Value(x) => o == Some(x),
            _ => o is None,
        },
{
    match op {
        Token::Plus => Some(v),
        Token::Minus => Some(-v),
        Token::Tilde => Some(!v),
        Token::Not => Some(if v == 0 { 1 } else { 0 }),
        _ => None,
    }
}

fn prec_exec(t: &Token) -> (p: u64)
    ensures
        p as int == prec(tok_view(*t)),
{
    match t {
        Token::LogOr => 1,
        Token::LogAnd => 2,
        Token::Or => 3,
        Token::Xor => 4,
        Token::And => 5,
        Token::Eq | Token::Ne => 6,
        Token::Lt | Token::Gt | Token::Le | Token::Ge => 7,
        Token::LShift | Token::RShift => 8,
        Token::Plus | Token::Minus => 9,
        Token::Star | Token::Slash | Token::Percent => 10,
        _ => 0,
    }
}

fn is_lparen(ts: &Vec<Token>, k: usize) -> (b: bool)
    ensures
        b == tok_is(toks_view(ts@), k as int, STok::LParen),
{
    if k < ts.len() {
        match &ts[k] {
            Token::LParen => true,
            _ => false,
        }
    } else {
        false
    }
}

fn is_rparen(ts: &Vec<Token>, k: usize) -> (b: bool)
    ensures
        b == tok_is(toks_view(ts@), k as int, STok::RParen),
{
    if k < ts.len() {
        match &ts[k] {
            Token::RParen => true,
            _ => false,
        }
    } else {
        false
    }
}

fn is_comma(ts: &Vec<Token>, k: usize) -> (b: bool)
    ensures
        b == tok_is(toks_view(ts@), k as int, STok::Comma),
{
    if k < ts.len() {
        match &ts[k] {
            Token::Comma => true,
            _ => false,
        }
    } else {
        false
    }
}

fn is_rgb_name(id: &Vec<char>) -> (b: bool)
    ensures
        b == (id@ == "RGB"@),
{
    proof {
        reveal_strlit("RGB");
    }
    if id.len() == 3 && id[0] == 'R' && id[1] == 'G' && id[2] == 'B' {
        assert(id@ =~= "RGB"@);
        true
    } else {
        false
    }
}

/// Whether `x` holds the characters `s[a..b]`.
fn chars_eq_range(x: &Vec<char>, s: &Vec<char>, a: usize, b: usize) -> (r: bool)
    requires
        a <= b <= s@.len(),
    ensures
        r == (x@ == s@.subrange(a as int, b as int)),
{
    if x.len() != b - a {
        return false;
    }
    let mut k: usize = 0;
    while k < x.len()
        invariant
            x@.len() == b - a,
            a <= b <= s@.len(),
            k <= x@.len(),
            forall|j: int| 0 <= j < k ==> x@[j] == s@[a + j],
        decreases x@.len() - k,
    {
        if x[k] != s[a + k] {
            assert(s@.subrange(a as int, b as int)[k as int] == s@[a + k]);
            return false;
        }
        k = k + 1;
    }
    assert(x@ =~= s@.subrange(a as int, b as int));
    true
}

fn vis_contains(vis: &Vec<Vec<char>>, s: &Vec<char>, a: usize, b: usize) -> (r: bool)
    requires
        a <= b <= s@.len(),
    ensures
        r == vis_view(vis@).contains(s@.subrange(a as int, b as int)),
{
    let ghost e = s@.subrange(a as int, b as int);
    let mut k: usize = 0;
    while k < vis.len()
        invariant
            k <= vis@.len(),
            a <= b <= s@.len(),
            e == s@.subrange(a as int, b as int),
            forall|j: int| 0 <= j < k ==> vis@[j]@ != e,
        decreases vis@.len() - k,
    {
        if chars_eq_range(&vis[k], s, a, b) {
            assert(vis_view(vis@)[k as int] == e);
            return true;
        }
        k = k + 1;
    }
    assert forall|j: int| 0 <= j < vis_view(vis@).len() implies vis_view(vis@)[j] != e by {
        assert(vis_view(vis@)[j] == vis@[j]@);
    }
    false
}

/// The index of the last define named `name`.
fn lookup_exec(defs: &Vec<CDefine>, name: &Vec<char>) -> (r: Option<usize>)
    ensures
        match lookup(defs_view(defs@), name@) {
            Some(t) => r matches Some(k) && k < defs@.len() && defs@[k as int].value@ == t,
            None => r is None,
        },
{
    let ghost dv = defs_view(defs@);
    let mut i = defs.len();
    assert(dv.take(i as int) =~= dv);
    while i > 0
        invariant
            i <= defs@.len(),
            dv == defs_view(defs@),
            lookup(dv, name@) == lookup(dv.take(i as int), name@),
        decreases i,
    {
        let nv = chars_of(defs[i - 1].name.as_str());
        let ghost t = dv.take(i as int);
        assert(t.last() == define_view(defs@[i - 1]));
        assert(t.drop_last() =~= dv.take(i - 1));
        if chars_eq_range(name, &nv, 0, nv.len()) {
            assert(nv@.subrange(0, nv@.len() as int) =~= nv@);
            return Some(i - 1);
        }
        assert(nv@.subrange(0, nv@.len() as int) =~= nv@);
        i = i - 1;
    }
    None
}

fn parse_expr_exec(
    ts: &Vec<Token>,
    pos: usize,
    minp: u64,
    defs: &Vec<CDefine>,
    depth: usize,
    vis: &mut Vec<Vec<char>>,
    ext: bool,
    live: bool,
) -> (r: Step)
    requires
        depth <= 128,
        minp <= 11,
        !(parse_expr(toks_view(ts@), pos as int, minp as int, defs_view(defs@), depth as int, vis_view(old(vis)@), ext, live) is Panic),
    ensures
        step_is(r, parse_expr(toks_view(ts@), pos as int, minp as int, defs_view(defs@), depth as int, vis_view(old(vis)@), ext, live)),
        final(vis)@ == old(vis)@,
    decreases 129 - depth, 0int, ts@.len() - pos, 2int,
{
    if pos >= ts.len() {
        return Step::Fail;
    }
    match parse_primary_exec(ts, pos, defs, depth, vis, ext, live) {
        Step::Done(left, p) => if pos < p && p <= ts.len() {
            parse_loop_exec(ts, p, left, minp, defs, depth, vis, ext, live)
        } else {
            Step::Fail
        },
        Step::Fail => Step::Fail,
    }
}

fn parse_loop_exec(
    ts: &Vec<Token>,
    pos: usize,
    left: i64,
    minp: u64,
    defs: &Vec<CDefine>,
    depth: usize,
    vis: &mut Vec<Vec<char>>,
    ext: bool,
    live: bool,
) -> (r: Step)
    requires
        depth <= 128,
        minp <= 11,
        !(parse_loop(toks_view(ts@), pos as int, left, minp as int, defs_view(defs@), depth as int, vis_view(old(vis)@), ext, live) is Panic),
    ensures
        step_is(r, parse_loop(toks_view(ts@), pos as int, left, minp as int, defs_view(defs@), depth as int, vis_view(old(vis)@), ext, live)),
        final(vis)@ == old(vis)@,
    decreases 129 - depth, 0int, ts@.len() - pos, 1int,
{
    if pos > ts.len() {
        return Step::Fail;
    }
    if pos == ts.len() {
        return Step::Done(left, pos);
    }
    let p = prec_exec(&ts[pos]);
    if p < minp || p == 0 {
        return Step::Done(left, pos);
    }
    let ghost tv = toks_view(ts@);
    assert(tv[pos as int] == tok_view(ts@[pos as int]));
    let is_and = match &ts[pos] {
        Token::LogAnd => true,
        _ => false,
    };
    let is_or = match &ts[pos] {
        Token::LogOr => true,
        _ => false,
    };
    if is_and || is_or {
        let skip = if is_and { left == 0 } else { left != 0 };
        match parse_expr_exec(ts, pos + 1, p + 1, defs, depth, vis, ext, live && !skip) {
            Step::Done(right, q) => if pos < q && q <= ts.len() {
                let v: i64 = if !live {
                    0
                } else if skip {
                    if is_and { 0 } else { 1 }
                } else if right != 0 {
                    1
                } else {
                    0
                };
                parse_loop_exec(ts, q, v, minp, defs, depth, vis, ext, live)
            } else {
                Step::Fail
            },
            Step::Fail => Step::Fail,
        }
    } else {
        match parse_expr_exec(ts, pos + 1, p + 1, defs, depth, vis, ext, live) {
            Step::Done(right, q) => if !live {
                if pos < q && q <= ts.len() {
                    parse_loop_exec(ts, q, 0, minp, defs, depth, vis, ext, live)
                } else {
                    Step::Fail
                }
            } else {
                match apply_op_exec(&ts[pos], left, right) {
                    Some(v) => if pos < q && q <= ts.len() {
                        parse_loop_exec(ts, q, v, minp, defs, depth, vis, ext, live)
                    } else {
                        Step::Fail
                    },
                    None => Step::Fail,
                }
            },
            Step::Fail => Step::Fail,
        }
    }
}

fn parse_primary_exec(
    ts: &Vec<Token>,
    pos: usize,
    defs: &Vec<CDefine>,
    depth: usize,
    vis: &mut Vec<Vec<char>>,
    ext: bool,
    live: bool,
) -> (r: Step)
    requires
        depth <= 128,
        !(parse_primary(toks_view(ts@), pos as int, defs_view(defs@), depth as int, vis_view(old(vis)@), ext, live) is Panic),
    ensures
        step_is(r, parse_primary(toks_view(ts@), pos as int, defs_view(defs@), depth as int, vis_view(old(vis)@), ext, live)),
        final(vis)@ == old(vis)@,
    decreases 129 - depth, 0int, ts@.len() - pos, 0int,
{
    if pos >= ts.len() {
        return Step::Fail;
    }
    let ghost tv = toks_view(ts@);
    assert(tv[pos as int] == tok_view(ts@[pos as int]));
    match &ts[pos] {
        Token::Number(n) => Step::Done(*n, pos + 1),
        Token::Ident(id) => {
            if is_rgb_name(id) && is_lparen(ts, pos + 1) {
                match parse_expr_exec(ts, pos + 2, 0, defs, depth, vis, ext, live) {
                    Step::Done(r, p1) => if is_comma(ts, p1) && pos < p1 {
                        match parse_expr_exec(ts, p1 + 1, 0, defs, depth, vis, ext, live) {
                            Step::Done(g, p2) => if is_comma(ts, p2) && p1 < p2 {
                                match parse_expr_exec(ts, p2 + 1, 0, defs, depth, vis, ext, live) {
                                    Step::Done(b, p3) => if is_rparen(ts, p3) {
                                        if !live {
                                            return Step::Done(0, p3 + 1);
                                        }
                                        let v = (((b as u64) << 10u64) as i64) | (((g as u64) << 5u64) as i64) | r;
                                        Step::Done(v, p3 + 1)
                                    } else {
                                        Step::Fail
                                    },
                                    Step::Fail => Step::Fail,
                                }
                            } else {
                                Step::Fail
                            },
                            Step::Fail => Step::Fail,
                        }
                    } else {
                        Step::Fail
                    },
                    Step::Fail => Step::Fail,
                }
            } else if !live {
                Step::Done(0, pos + 1)
            } else {
                match lookup_exec(defs, id) {
                    Some(k) => {
                        match eval_exec(defs[k].value.as_str(), defs, depth + 1, vis, ext) {
                            Some(v) => Step::Done(v, pos + 1),
                            None => Step::Fail,
                        }
                    },
                    None => Step::Fail,
                }
            }
        },
        Token::LParen => match parse_expr_exec(ts, pos + 1, 0, defs, depth, vis, ext, live) {
            Step::Done(v, q) => if is_rparen(ts, q) {
                Step::Done(v, q + 1)
            } else {
                Step::Fail
            },
            Step::Fail => Step::Fail,
        },
        Token::Plus | Token::Minus | Token::Tilde | Token::Not => {
            match parse_primary_exec(ts, pos + 1, defs, depth, vis, ext, live) {
                Step::Done(v, q) => if !live {
                    Step::Done(0, q)
                } else {
                    match apply_unary_exec(&ts[pos], v) {
                        Some(x) => Step::Done(x, q),
                        None => Step::Fail,
                    }
                },
                Step::Fail => Step::Fail,
            }
        },
        _ => Step::Fail,
    }
}

fn eval_exec(expr: &str, defs: &Vec<CDefine>, depth: usize, vis: &mut Vec<Vec<char>>, ext: bool) -> (r: Option<i64>)
    requires
        depth <= 129,
        !(eval_x(expr@, defs_view(defs@), depth as int, vis_view(old(vis)@), ext) is Panic),
    ensures
        match eval_x(expr@, defs_view(defs@), depth as int, vis_view(old(vis)@), ext) {
            Outcome::Value(v) => r == Some(v),
            _ => r is None,
        },
        final(vis)@ == old(vis)@,
    decreases 129 - depth, 1int, 0int, 0int,
{
    if depth > MAX_EVAL_DEPTH {
        return None;
    }
    let cs = chars_of(expr);
    let (a, b) = trim_bounds(&cs, 0, cs.len());
    let ghost e = trim(expr@);
    assert(cs@.subrange(0, cs@.len() as int) =~= cs@);
    assert(e == cs@.subrange(a as int, b as int));
    if a == b {
        return None;
    }
    let hex_lower = prefix_at(&cs, a, b, "0x");
    let hex_upper = prefix_at(&cs, a, b, "0X");
    proof {
        reveal_strlit("0x");
        reveal_strlit("0X");
        if a + 2 <= b {
            assert(cs@.subrange(0, b as int).subrange(a as int, a + 2) =~= e.subrange(0, 2));
        }
    }
    let num = if hex_lower || hex_upper {
        assert(e.skip(2) =~= cs@.subrange(a + 2, b as int));
        parse_int_range(&cs, a + 2, b, 16, true, -0x8000_0000_0000_0000, 0x7fff_ffff_ffff_ffff)
    } else {
        parse_int_range(&cs, a, b, 10, true, -0x8000_0000_0000_0000, 0x7fff_ffff_ffff_ffff)
    };
    if let Some(v) = num {
        return Some(v as i64);
    }
    if vis_contains(vis, &cs, a, b) {
        return None;
    }
    let ev = copy_chars(&cs, a, b);
    let ts = match lex_exec(&ev, ext) {
        Some(ts) => ts,
        None => {
            return None;
        },
    };
    if ts.len() == 0 {
        return None;
    }
    let ghost before = vis@;
    vis.push(ev);
    assert(vis_view(vis@) =~= vis_view(before).push(e));
    let r = parse_expr_exec(&ts, 0, 0, defs, depth, vis, ext, true);
    vis.pop();
    assert(vis@ =~= before);
    match r {
        Step::Done(v, p) => if p == ts.len() {
            Some(v)
        } else {
            None
        },
        Step::Fail => None,
    }
}

/// The value of `value` under the definitions `defines`: trimmed, then
/// evaluated with identifiers taken from the last define of each name.
pub fn parse_value(value: &str, defines: &Vec<CDefine>) -> (r: Option<i64>)
    requires
        !(eval(value@, defs_view(defines@), 0, Seq::empty()) is Panic),
    ensures
        match eval(value@, defs_view(defines@), 0, Seq::empty()) {
            Outcome::Value(v) => r == Some(v),
            _ => r is None,
        },
{
    let mut vis: Vec<Vec<char>> = Vec::new();
    assert(vis_view(vis@) =~= Seq::<Seq<char>>::empty());
    eval_exec(value, defines, 0, &mut vis, false)
}

/// `parse_value` where the comparisons `< > <= >= == !=` (giving 1 or 0)
/// and the short-circuit `&&`, `||` are also operators: the right operand
/// of `&&` after 0, or of `||` after a non-zero value, is only parsed.
pub fn parse_value_with_logic(value: &str, defines: &Vec<CDefine>) -> (r: Option<i64>)
    requires
        !(eval_x(value@, defs_view(defines@), 0, Seq::empty(), true) is Panic),
    ensures
        r == outcome_value(eval_x(value@, defs_view(defines@), 0, Seq::empty(), true)),
{
    let mut vis: Vec<Vec<char>> = Vec::new();
    assert(vis_view(vis@) =~= Seq::<Seq<char>>::empty());
    eval_exec(value, defines, 0, &mut vis, true)
}

/// Every define's value evaluates without overflowing.
pub open spec fn defines_evaluable(defs: Seq<(Seq<char>, Seq<char>)>) -> bool {
    forall|i: int| 0 <= i < defs.len() ==> !(#[trigger] eval(defs[i].1, defs, 0, Seq::empty()) is Panic)
}

/// The value an evaluation gives, if any.
pub open spec fn outcome_value(o: Outcome) -> Option<i64> {
    match o {
        Outcome::Value(v) => Some(v),
        _ => None,
    }
}

/// The defines of a source text, each with its value evaluated against all
/// of them.
pub fn parse_and_resolve_defines(source: &str) -> (r: Vec<CDefine>)
    requires
        defines_evaluable(defines_in(lines(source@))),
    ensures
        defs_view(r@) == defines_in(lines(source@)),
        forall|i: int| 0 <= i < r@.len() ==> (#[trigger] r@[i]).resolved == outcome_value(
            eval(r@[i].value@, defs_view(r@), 0, Seq::empty()),
        ),
{
    let defines = parse_defines(source);
    let ghost dv = defs_view(defines@);
    assert(dv == defines@.map_values(|d: CDefine| define_view(d)));
    let mut out: Vec<CDefine> = Vec::new();
    let mut i: usize = 0;
    while i < defines.len()
        invariant
            i <= defines@.len(),
            dv == defs_view(defines@),
            dv == defines_in(lines(source@)),
            defines_evaluable(dv),
            out@.len() == i,
            forall|k: int| 0 <= k < i ==> define_view(#[trigger] out@[k]) == define_view(defines@[k]),
            forall|k: int| 0 <= k < i ==> (#[trigger] out@[k]).resolved == outcome_value(
                eval(out@[k].value@, dv, 0, Seq::empty()),
            ),
        decreases defines@.len() - i,
    {
        let d = &defines[i];
        assert(dv[i as int] == define_view(defines@[i as int]));
        assert(!(eval(dv[i as int].1, dv, 0, Seq::empty()) is Panic));
        let resolved = parse_value(d.value.as_str(), &defines);
        out.push(CDefine { name: d.name.clone(), value: d.value.clone(), resolved });
        i = i + 1;
    }
    assert(defs_view(out@) =~= dv);
    out
}

} // verus!
