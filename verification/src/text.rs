//! Character-level text helpers: whitespace, lines, integer literals and
//! decimal rendering, all stated over `Seq<char>`.
use vstd::prelude::*;

verus! {

/// `char::is_whitespace`: the Unicode `White_Space` characters.
pub open spec fn is_ws(c: char) -> bool {
    ||| c == ' '
    ||| ('\u{9}' <= c && c <= '\u{d}')
    ||| c == '\u{85}'
    ||| c == '\u{a0}'
    ||| c == '\u{1680}'
    ||| ('\u{2000}' <= c && c <= '\u{200a}')
    ||| c == '\u{2028}'
    ||| c == '\u{2029}'
    ||| c == '\u{202f}'
    ||| c == '\u{205f}'
    ||| c == '\u{3000}'
}

/// `u8::is_ascii_whitespace` on a character: space, tab, line feed, form feed, carriage return.
pub open spec fn is_ascii_ws(c: char) -> bool {
    c == ' ' || c == '\t' || c == '\n' || c == '\u{c}' || c == '\r'
}

pub open spec fn is_ascii_digit(c: char) -> bool {
    '0' <= c && c <= '9'
}

pub open spec fn is_ascii_alpha(c: char) -> bool {
    ('a' <= c && c <= 'z') || ('A' <= c && c <= 'Z')
}

pub open spec fn is_ascii_alnum(c: char) -> bool {
    is_ascii_digit(c) || is_ascii_alpha(c)
}

pub open spec fn is_ident_start(c: char) -> bool {
    is_ascii_alpha(c) || c == '_'
}

pub open spec fn is_ident_char(c: char) -> bool {
    is_ascii_alnum(c) || c == '_'
}

pub fn is_whitespace(c: char) -> (b: bool)
    ensures
        b == is_ws(c),
{
    c == ' ' || ('\u{9}' <= c && c <= '\u{d}') || c == '\u{85}' || c == '\u{a0}' || c
        == '\u{1680}' || ('\u{2000}' <= c && c <= '\u{200a}') || c == '\u{2028}' || c == '\u{2029}'
        || c == '\u{202f}' || c == '\u{205f}' || c == '\u{3000}'
}

pub fn is_ascii_whitespace(c: char) -> (b: bool)
    ensures
        b == is_ascii_ws(c),
{
    c == ' ' || c == '\t' || c == '\n' || c == '\u{c}' || c == '\r'
}

pub fn is_digit(c: char) -> (b: bool)
    ensures
        b == is_ascii_digit(c),
{
    '0' <= c && c <= '9'
}

pub fn is_ident_start_char(c: char) -> (b: bool)
    ensures
        b == is_ident_start(c),
{
    ('a' <= c && c <= 'z') || ('A' <= c && c <= 'Z') || c == '_'
}

pub fn is_ident_continue_char(c: char) -> (b: bool)
    ensures
        b == is_ident_char(c),
{
    ('a' <= c && c <= 'z') || ('A' <= c && c <= 'Z') || c == '_' || ('0' <= c && c <= '9')
}

/// Number of leading whitespace characters.
pub open spec fn lead_ws(s: Seq<char>) -> nat
    decreases s.len(),
{
    if s.len() > 0 && is_ws(s[0]) {
        1 + lead_ws(s.drop_first())
    } else {
        0
    }
}

/// Number of trailing whitespace characters.
pub open spec fn trail_ws(s: Seq<char>) -> nat
    decreases s.len(),
{
    if s.len() > 0 && is_ws(s.last()) {
        1 + trail_ws(s.drop_last())
    } else {
        0
    }
}

pub open spec fn trim_start(s: Seq<char>) -> Seq<char> {
    s.subrange(lead_ws(s) as int, s.len() as int)
}

pub open spec fn trim_end(s: Seq<char>) -> Seq<char> {
    s.subrange(0, s.len() - trail_ws(s))
}

/// `str::trim`: both ends stripped of whitespace.
pub open spec fn trim(s: Seq<char>) -> Seq<char> {
    trim_end(trim_start(s))
}

pub proof fn lemma_lead_ws_bound(s: Seq<char>)
    ensures
        lead_ws(s) <= s.len(),
        forall|i: int| 0 <= i < lead_ws(s) ==> is_ws(#[trigger] s[i]),
        lead_ws(s) < s.len() ==> !is_ws(s[lead_ws(s) as int]),
    decreases s.len(),
{
    if s.len() > 0 && is_ws(s[0]) {
        lemma_lead_ws_bound(s.drop_first());
        assert forall|i: int| 0 <= i < lead_ws(s) implies is_ws(#[trigger] s[i]) by {
            if i > 0 {
                assert(s[i] == s.drop_first()[i - 1]);
            }
        }
        if lead_ws(s) < s.len() {
            assert(s[lead_ws(s) as int] == s.drop_first()[lead_ws(s.drop_first()) as int]);
        }
    }
}

pub proof fn lemma_trail_ws_bound(s: Seq<char>)
    ensures
        trail_ws(s) <= s.len(),
        forall|i: int| s.len() - trail_ws(s) <= i < s.len() ==> is_ws(#[trigger] s[i]),
        trail_ws(s) < s.len() ==> !is_ws(s[s.len() - trail_ws(s) - 1]),
    decreases s.len(),
{
    if s.len() > 0 && is_ws(s.last()) {
        lemma_trail_ws_bound(s.drop_last());
        assert forall|i: int| s.len() - trail_ws(s) <= i < s.len() implies is_ws(#[trigger] s[i]) by {
            if i < s.len() - 1 {
                assert(s[i] == s.drop_last()[i]);
            }
        }
        if trail_ws(s) < s.len() {
            assert(s[s.len() - trail_ws(s) - 1] == s.drop_last()[s.drop_last().len() - trail_ws(s.drop_last()) - 1]);
        }
    }
}

/// Characters `lo..hi` of a leading-whitespace scan agree with `lead_ws`.
pub proof fn lemma_lead_ws_of(s: Seq<char>, k: nat)
    requires
        k <= s.len(),
        forall|i: int| 0 <= i < k ==> is_ws(#[trigger] s[i]),
        k < s.len() ==> !is_ws(s[k as int]),
    ensures
        lead_ws(s) == k,
    decreases k,
{
    if k > 0 {
        assert forall|i: int| 0 <= i < k - 1 implies is_ws(#[trigger] s.drop_first()[i]) by {
            assert(s.drop_first()[i] == s[i + 1]);
        }
        if k - 1 < s.drop_first().len() {
            assert(s.drop_first()[k - 1] == s[k as int]);
        }
        lemma_lead_ws_of(s.drop_first(), (k - 1) as nat);
    }
}

pub proof fn lemma_trail_ws_of(s: Seq<char>, k: nat)
    requires
        k <= s.len(),
        forall|i: int| s.len() - k <= i < s.len() ==> is_ws(#[trigger] s[i]),
        k < s.len() ==> !is_ws(s[s.len() - k - 1]),
    ensures
        trail_ws(s) == k,
    decreases k,
{
    if k > 0 {
        let t = s.drop_last();
        assert forall|i: int| t.len() - (k - 1) <= i < t.len() implies is_ws(#[trigger] t[i]) by {
            assert(t[i] == s[i]);
        }
        if k - 1 < t.len() {
            assert(t[t.len() - (k - 1) - 1] == s[s.len() - k - 1]);
        }
        lemma_trail_ws_of(t, (k - 1) as nat);
    }
}

/// The bounds of `trim(s[lo..hi])` inside `s`.
pub fn trim_bounds(s: &Vec<char>, lo: usize, hi: usize) -> (r: (usize, usize))
    requires
        lo <= hi <= s@.len(),
    ensures
        lo <= r.0 <= r.1 <= hi,
        s@.subrange(r.0 as int, r.1 as int) == trim(s@.subrange(lo as int, hi as int)),
{
    let ghost t = s@.subrange(lo as int, hi as int);
    let mut a = lo;
    while a < hi && is_whitespace(s[a])
        invariant
            lo <= a <= hi <= s@.len(),
            forall|i: int| lo <= i < a ==> is_ws(#[trigger] s@[i]),
        decreases hi - a,
    {
        a = a + 1;
    }
    proof {
        assert forall|i: int| 0 <= i < a - lo implies is_ws(#[trigger] t[i]) by {
            assert(t[i] == s@[lo + i]);
        }
        if a < hi {
            assert(t[a - lo] == s@[a as int]);
        }
        lemma_lead_ws_of(t, (a - lo) as nat);
    }
    let mut b = hi;
    while b > a && is_whitespace(s[b - 1])
        invariant
            lo <= a <= b <= hi <= s@.len(),
            forall|i: int| b <= i < hi ==> is_ws(#[trigger] s@[i]),
        decreases b - a,
    {
        b = b - 1;
    }
    proof {
        let u = trim_start(t);
        assert(u =~= s@.subrange(a as int, hi as int));
        assert forall|i: int| u.len() - (hi - b) <= i < u.len() implies is_ws(#[trigger] u[i]) by {
            assert(u[i] == s@[a + i]);
        }
        if hi - b < u.len() {
            assert(u[u.len() - (hi - b) - 1] == s@[b - 1]);
        }
        lemma_trail_ws_of(u, (hi - b) as nat);
        assert(trim(t) =~= s@.subrange(a as int, b as int));
    }
    (a, b)
}

/// Copy the characters of a string into a vector.
pub fn chars_of(s: &str) -> (v: Vec<char>)
    ensures
        v@ == s@,
{
    let mut v: Vec<char> = Vec::new();
    for c in it: s.chars()
        invariant
            v@ == it.seq().take(it.index() as int),
    {
        v.push(c);
    }
    v
}

/// `String::push`.
#[verifier::external_body]
pub fn push_char(s: &mut String, c: char)
    ensures
        final(s)@ == old(s)@.push(c),
{
    s.push(c);
}

/// Build a string from `s[lo..hi]`.
pub fn string_of(s: &Vec<char>, lo: usize, hi: usize) -> (r: String)
    requires
        lo <= hi <= s@.len(),
    ensures
        r@ == s@.subrange(lo as int, hi as int),
{
    let mut r = String::new();
    let mut i = lo;
    while i < hi
        invariant
            lo <= i <= hi <= s@.len(),
            r@ == s@.subrange(lo as int, i as int),
        decreases hi - i,
    {
        push_char(&mut r, s[i]);
        i = i + 1;
        assert(r@ =~= s@.subrange(lo as int, i as int));
    }
    r
}

/// Append all characters of `t` to `s`.
pub fn push_str(s: &mut String, t: &str)
    ensures
        final(s)@ == old(s)@ + t@,
{
    s.append(t);
}

/// Whether `s[i..]` starts with `p`.
pub open spec fn has_prefix_at(s: Seq<char>, i: int, p: Seq<char>) -> bool {
    0 <= i && i + p.len() <= s.len() && s.subrange(i, i + p.len()) == p
}

pub fn prefix_at(s: &Vec<char>, i: usize, hi: usize, p: &str) -> (b: bool)
    requires
        i <= hi <= s@.len(),
    ensures
        b == has_prefix_at(s@.subrange(0, hi as int), i as int, p@),
{
    let pv = chars_of(p);
    if pv.len() > hi - i {
        return false;
    }
    let mut k: usize = 0;
    while k < pv.len()
        invariant
            i + pv@.len() <= hi <= s@.len(),
            k <= pv@.len(),
            pv@ == p@,
            forall|j: int| 0 <= j < k ==> s@[i + j] == pv@[j],
        decreases pv@.len() - k,
    {
        if s[i + k] != pv[k] {
            assert(s@.subrange(0, hi as int).subrange(i as int, i + p@.len())[k as int] != p@[k as int]);
            return false;
        }
        k = k + 1;
    }
    assert(s@.subrange(0, hi as int).subrange(i as int, i + p@.len()) =~= p@);
    true
}

/// The decimal digits of a natural number.
pub open spec fn dec(n: nat) -> Seq<char>
    decreases n,
{
    if n < 10 {
        seq![digit_char(n)]
    } else {
        dec(n / 10).push(digit_char(n % 10))
    }
}

pub open spec fn digit_char(d: nat) -> char {
    ((d + 48) as u32) as char
}

/// The decimal rendering of an integer: a minus sign for negatives.
pub open spec fn dec_int(v: int) -> Seq<char> {
    if v < 0 {
        seq!['-'] + dec((-v) as nat)
    } else {
        dec(v as nat)
    }
}

/// The decimal rendering of a natural number, left-padded with zeros to `width` digits.
pub open spec fn dec_padded(n: nat, width: nat) -> Seq<char> {
    if dec(n).len() >= width {
        dec(n)
    } else {
        Seq::new((width - dec(n).len()) as nat, |i: int| '0') + dec(n)
    }
}

pub proof fn lemma_dec_len(n: nat)
    ensures
        dec(n).len() >= 1,
    decreases n,
{
    if n >= 10 {
        lemma_dec_len(n / 10);
    }
}

fn digit(d: u64) -> (c: char)
    requires
        d < 10,
    ensures
        c == digit_char(d as nat),
{
    if d == 0 { '0' }
    else if d == 1 { '1' }
    else if d == 2 { '2' }
    else if d == 3 { '3' }
    else if d == 4 { '4' }
    else if d == 5 { '5' }
    else if d == 6 { '6' }
    else if d == 7 { '7' }
    else if d == 8 { '8' }
    else { '9' }
}

/// Append the decimal digits of `n`.
pub fn push_dec(s: &mut String, n: u64)
    ensures
        final(s)@ == old(s)@ + dec(n as nat),
    decreases n,
{
    if n < 10 {
        push_char(s, digit(n));
        assert(dec(n as nat) =~= seq![digit_char(n as nat)]);
    } else {
        push_dec(s, n / 10);
        push_char(s, digit(n % 10));
    }
    assert(final(s)@ =~= old(s)@ + dec(n as nat));
}

/// The decimal rendering of an unsigned number (`to_string`).
pub fn u64_to_string(n: u64) -> (s: String)
    ensures
        s@ == dec(n as nat),
{
    let mut s = String::new();
    push_dec(&mut s, n);
    assert(s@ =~= dec(n as nat));
    s
}

/// The decimal rendering of a signed number (`to_string`).
pub fn i64_to_string(v: i64) -> (s: String)
    ensures
        s@ == dec_int(v as int),
{
    let mut s = String::new();
    if v < 0 {
        push_char(&mut s, '-');
        let m: u64 = if v == i64::MIN { 9223372036854775808u64 } else { (-v) as u64 };
        push_dec(&mut s, m);
    } else {
        push_dec(&mut s, v as u64);
    }
    assert(s@ =~= dec_int(v as int));
    s
}

/// `format!("{:04}", n)`.
pub fn u64_to_padded(n: u64, width: usize) -> (s: String)
    ensures
        s@ == dec_padded(n as nat, width as nat),
{
    let digits = u64_to_string(n);
    let dv = chars_of(digits.as_str());
    let mut s = String::new();
    if dv.len() < width {
        let mut k: usize = 0;
        while k < width - dv.len()
            invariant
                dv@ == dec(n as nat),
                dv@.len() < width,
                k <= width - dv@.len(),
                s@ == Seq::new(k as nat, |i: int| '0'),
            decreases width - dv@.len() - k,
        {
            push_char(&mut s, '0');
            k = k + 1;
            assert(s@ =~= Seq::new(k as nat, |i: int| '0'));
        }
    }
    push_str(&mut s, digits.as_str());
    assert(s@ =~= dec_padded(n as nat, width as nat));
    s
}

/// The value of a digit character in `radix` (10 or 16), or -1.
pub open spec fn digit_val(c: char, radix: int) -> int {
    if '0' <= c && c <= '9' {
        c as int - 48
    } else if radix == 16 && 'a' <= c && c <= 'f' {
        c as int - 87
    } else if radix == 16 && 'A' <= c && c <= 'F' {
        c as int - 55
    } else {
        -1
    }
}

pub open spec fn all_digits(s: Seq<char>, radix: int) -> bool {
    forall|i: int| 0 <= i < s.len() ==> digit_val(#[trigger] s[i], radix) >= 0
}

/// The value of a digit string, most significant digit first.
pub open spec fn digits_value(s: Seq<char>, radix: int) -> int
    decreases s.len(),
{
    if s.len() == 0 {
        0
    } else {
        digits_value(s.drop_last(), radix) * radix + digit_val(s.last(), radix)
    }
}

/// The signed magnitude reading used by `str::parse` and `from_str_radix`:
/// an optional `+` (or, when `signed`, `-`), then one or more digits.
/// `None` when the text is not such a literal.
pub open spec fn literal_value(s: Seq<char>, radix: int, signed: bool) -> Option<int> {
    if s.len() == 0 {
        None
    } else {
        let neg = signed && s[0] == '-';
        let body = if s[0] == '+' || neg { s.drop_first() } else { s };
        if body.len() == 0 || !all_digits(body, radix) {
            None
        } else if neg {
            Some(-digits_value(body, radix))
        } else {
            Some(digits_value(body, radix))
        }
    }
}

/// Integer parsing as `str::parse`/`from_str_radix` do it for a type with range `lo..=hi`.
pub open spec fn parse_int(s: Seq<char>, radix: int, signed: bool, lo: int, hi: int) -> Option<int> {
    match literal_value(s, radix, signed) {
        Some(v) => if lo <= v && v <= hi { Some(v) } else { None },
        None => None,
    }
}

pub open spec fn parse_i64(s: Seq<char>) -> Option<int> {
    parse_int(s, 10, true, i64::MIN as int, i64::MAX as int)
}

pub open spec fn parse_i64_hex(s: Seq<char>) -> Option<int> {
    parse_int(s, 16, true, i64::MIN as int, i64::MAX as int)
}

pub open spec fn parse_u8(s: Seq<char>) -> Option<int> {
    parse_int(s, 10, false, 0, 255)
}

pub open spec fn parse_u32(s: Seq<char>) -> Option<int> {
    parse_int(s, 10, false, 0, u32::MAX as int)
}

pub proof fn lemma_digits_value_nonneg(s: Seq<char>, radix: int)
    requires
        all_digits(s, radix),
        radix >= 1,
    ensures
        digits_value(s, radix) >= 0,
    decreases s.len(),
{
    if s.len() > 0 {
        assert(all_digits(s.drop_last(), radix)) by {
            assert forall|i: int| 0 <= i < s.drop_last().len() implies digit_val(#[trigger] s.drop_last()[i], radix) >= 0 by {
                assert(s.drop_last()[i] == s[i]);
            }
        }
        lemma_digits_value_nonneg(s.drop_last(), radix);
        assert(digit_val(s[s.len() - 1], radix) >= 0);
        assert(digits_value(s.drop_last(), radix) * radix >= 0) by (nonlinear_arith)
            requires digits_value(s.drop_last(), radix) >= 0, radix >= 1;
    }
}

proof fn lemma_cap_step(v: int, c: int, r: int, d: int)
    requires
        v >= 0,
        c >= 0,
        r >= 1,
        d >= 0,
    ensures
        (if (if v < c { v } else { c }) * r + d < c { (if v < c { v } else { c }) * r + d } else { c })
            == (if v * r + d < c { v * r + d } else { c }),
{
    if v >= c {
        assert(c * r + d >= c) by (nonlinear_arith) requires c >= 0, r >= 1, d >= 0;
        assert(v * r + d >= c) by (nonlinear_arith) requires v >= c, c >= 0, r >= 1, d >= 0;
    }
}

pub fn digit_value(c: char, radix: u32) -> (d: i32)
    requires
        radix == 10 || radix == 16,
    ensures
        d == digit_val(c, radix as int),
{
    if '0' <= c && c <= '9' {
        (c as u32 - 48) as i32
    } else if radix == 16 && 'a' <= c && c <= 'f' {
        (c as u32 - 87) as i32
    } else if radix == 16 && 'A' <= c && c <= 'F' {
        (c as u32 - 55) as i32
    } else {
        -1
    }
}

/// Parse `s[lo..hi]` as `str::parse` / `from_str_radix` would for a type with range `min..=max`.
#[verifier::loop_isolation(false)]
pub fn parse_int_range(s: &Vec<char>, lo: usize, hi: usize, radix: u32, signed: bool, min: i128, max: i128) -> (r: Option<i128>)
    requires
        lo <= hi <= s@.len(),
        radix == 10 || radix == 16,
        -0x8000_0000_0000_0000 <= min <= 0 <= max <= 0xffff_ffff_ffff_ffff,
    ensures
        r == match parse_int(s@.subrange(lo as int, hi as int), radix as int, signed, min as int, max as int) {
            Some(v) => Some(v as i128),
            None => None::<i128>,
        },
{
    let ghost t = s@.subrange(lo as int, hi as int);
    if lo == hi {
        return None;
    }
    let neg = signed && s[lo] == '-';
    let start = if s[lo] == '+' || neg { lo + 1 } else { lo };
    let ghost body = s@.subrange(start as int, hi as int);
    assert(body =~= (if t[0] == '+' || neg { t.drop_first() } else { t }));
    if start == hi {
        return None;
    }
    // The magnitude is capped one past the largest value that fits.
    let cap: i128 = if neg { -min + 1 } else { max + 1 };
    let mut acc: i128 = 0;
    let mut i = start;
    while i < hi
        invariant
            start <= i <= hi <= s@.len(),
            body == s@.subrange(start as int, hi as int),
            radix == 10 || radix == 16,
            1 <= cap <= 0x1_0000_0000_0000_0000,
            0 <= acc <= cap,
            all_digits(s@.subrange(start as int, i as int), radix as int),
            acc == (if digits_value(s@.subrange(start as int, i as int), radix as int) < cap {
                digits_value(s@.subrange(start as int, i as int), radix as int)
            } else {
                cap as int
            }),
        decreases hi - i,
    {
        let d = digit_value(s[i], radix);
        let ghost pre = s@.subrange(start as int, i as int);
        let ghost nxt = s@.subrange(start as int, i + 1);
        assert(nxt.drop_last() =~= pre);
        if d < 0 {
            assert(!all_digits(body, radix as int)) by {
                assert(body[i - start] == s@[i as int]);
            }
            return None;
        }
        proof {
            lemma_digits_value_nonneg(pre, radix as int);
            lemma_cap_step(digits_value(pre, radix as int), cap as int, radix as int, d as int);
            assert(all_digits(nxt, radix as int)) by {
                assert forall|j: int| 0 <= j < nxt.len() implies digit_val(#[trigger] nxt[j], radix as int) >= 0 by {
                    if j < pre.len() {
                        assert(nxt[j] == pre[j]);
                    }
                }
            }
        }
        let stepped: i128 = acc * (radix as i128) + (d as i128);
        acc = if stepped < cap { stepped } else { cap };
        i = i + 1;
    }
    assert(s@.subrange(start as int, hi as int) =~= body);
    if acc >= cap {
        return None;
    }
    if neg {
        Some(-acc)
    } else {
        Some(acc)
    }
}

/// Whether two strings hold the same characters.
pub fn str_eq(a: &str, b: &str) -> (r: bool)
    ensures
        r == (a@ == b@),
{
    let av = chars_of(a);
    let bv = chars_of(b);
    if av.len() != bv.len() {
        return false;
    }
    let mut k: usize = 0;
    while k < av.len()
        invariant
            av@ == a@,
            bv@ == b@,
            av@.len() == bv@.len(),
            k <= av@.len(),
            forall|j: int| 0 <= j < k ==> av@[j] == bv@[j],
        decreases av@.len() - k,
    {
        if av[k] != bv[k] {
            return false;
        }
        k = k + 1;
    }
    assert(av@ =~= bv@);
    true
}

// ----- lines -----

/// The index of the first `c` in `s`, or the length when there is none.
pub open spec fn index_of(s: Seq<char>, c: char) -> nat
    decreases s.len(),
{
    if s.len() == 0 {
        0
    } else if s[0] == c {
        0
    } else {
        1 + index_of(s.drop_first(), c)
    }
}

pub proof fn lemma_index_of(s: Seq<char>, c: char, k: nat)
    requires
        k <= s.len(),
        forall|i: int| 0 <= i < k ==> s[i] != c,
        k == s.len() || s[k as int] == c,
    ensures
        index_of(s, c) == k,
    decreases k,
{
    if k > 0 {
        let t = s.drop_first();
        assert forall|i: int| 0 <= i < k - 1 implies t[i] != c by {
            assert(t[i] == s[i + 1]);
        }
        if k < s.len() {
            assert(t[k - 1] == s[k as int]);
        }
        lemma_index_of(t, c, (k - 1) as nat);
    }
}


/// The pieces of `s` between the separators `c`, as `str::split` gives them.
pub open spec fn split_on(s: Seq<char>, c: char) -> Seq<Seq<char>>
    decreases s.len(),
{
    let i = index_of(s, c);
    if i >= s.len() {
        seq![s]
    } else {
        seq![s.take(i as int)] + split_on(s.skip(i + 1 as int), c)
    }
}

/// Where the piece of `s[p..hi]` that starts at `p` ends: the first `c`, or `hi`.
pub fn piece_end(s: &Vec<char>, p: usize, hi: usize, c: char) -> (e: usize)
    requires
        p <= hi <= s@.len(),
    ensures
        p <= e <= hi,
        index_of(s@.subrange(p as int, hi as int), c) == e - p,
        e < hi ==> split_on(s@.subrange(p as int, hi as int), c) == seq![s@.subrange(p as int, e as int)]
            + split_on(s@.subrange(e + 1, hi as int), c),
        e == hi ==> split_on(s@.subrange(p as int, hi as int), c) == seq![s@.subrange(p as int, hi as int)],
{
    let ghost w = s@.subrange(p as int, hi as int);
    let mut e = p;
    while e < hi && s[e] != c
        invariant
            p <= e <= hi <= s@.len(),
            forall|i: int| p <= i < e ==> s@[i] != c,
        decreases hi - e,
    {
        e = e + 1;
    }
    proof {
        assert forall|i: int| 0 <= i < e - p implies w[i] != c by {
            assert(w[i] == s@[p + i]);
        }
        if e < hi {
            assert(w[e - p] == s@[e as int]);
        }
        lemma_index_of(w, c, (e - p) as nat);
        assert(w.take(e - p) =~= s@.subrange(p as int, e as int));
        if e < hi {
            assert(w.skip(e - p + 1) =~= s@.subrange(e + 1, hi as int));
        }
    }
    e
}


/// `str::trim` into a new string.
pub fn trimmed(s: &str) -> (r: String)
    ensures
        r@ == trim(s@),
{
    let v = chars_of(s);
    let n = v.len();
    assert(v@.subrange(0, n as int) =~= s@);
    let (a, z) = trim_bounds(&v, 0, n);
    string_of(&v, a, z)
}

/// The pieces of `s[lo..hi]` between the separators `c`, each trimmed.
pub fn split_trimmed(s: &Vec<char>, lo: usize, hi: usize, c: char) -> (r: Vec<String>)
    requires
        lo <= hi <= s@.len(),
    ensures
        r@.map_values(|x: String| x@) == split_on(s@.subrange(lo as int, hi as int), c).map_values(
            |p: Seq<char>| trim(p),
        ),
{
    let ghost whole = split_on(s@.subrange(lo as int, hi as int), c).map_values(|p: Seq<char>| trim(p));
    let mut out: Vec<String> = Vec::new();
    let mut p = lo;
    loop
        invariant
            lo <= p <= hi <= s@.len(),
            whole == split_on(s@.subrange(lo as int, hi as int), c).map_values(|p: Seq<char>| trim(p)),
            whole == out@.map_values(|x: String| x@) + split_on(s@.subrange(p as int, hi as int), c).map_values(
                |p: Seq<char>| trim(p),
            ),
        decreases hi - p,
    {
        let e = piece_end(s, p, hi, c);
        let (a, z) = trim_bounds(s, p, e);
        let piece = string_of(s, a, z);
        let ghost before = out@.map_values(|x: String| x@);
        let ghost parts = split_on(s@.subrange(p as int, hi as int), c);
        out.push(piece);
        assert(out@.map_values(|x: String| x@) =~= before.push(trim(s@.subrange(p as int, e as int))));
        if e == hi {
            assert(parts.map_values(|q: Seq<char>| trim(q)) =~= seq![trim(s@.subrange(p as int, e as int))]);
            assert(whole =~= out@.map_values(|x: String| x@));
            return out;
        }
        assert(parts.map_values(|q: Seq<char>| trim(q)) =~= seq![trim(s@.subrange(p as int, e as int))]
            + split_on(s@.subrange(e + 1, hi as int), c).map_values(|q: Seq<char>| trim(q)));
        p = e + 1;
    }
}

/// A line without the `\r` of a `\r\n` ending.
pub open spec fn strip_cr(l: Seq<char>) -> Seq<char> {
    if l.len() > 0 && l.last() == '\r' {
        l.drop_last()
    } else {
        l
    }
}

/// The lines of a text as `str::lines` gives them: split at `\n`, a `\r`
/// before the `\n` dropped, no empty line after a final `\n`.
pub open spec fn lines(s: Seq<char>) -> Seq<Seq<char>>
    decreases s.len(),
{
    if s.len() == 0 {
        Seq::empty()
    } else {
        let i = index_of(s, '\n');
        if i >= s.len() {
            seq![s]
        } else {
            seq![strip_cr(s.take(i as int))] + lines(s.skip(i + 1 as int))
        }
    }
}

proof fn lemma_index_of_bound(s: Seq<char>, c: char)
    ensures
        index_of(s, c) <= s.len(),
    decreases s.len(),
{
    if s.len() > 0 && s[0] != c {
        lemma_index_of_bound(s.drop_first(), c);
    }
}

/// The line that starts at `pos`: its bounds and where the next one starts.
pub fn next_line(s: &Vec<char>, pos: usize) -> (r: (usize, usize, usize))
    requires
        pos < s@.len(),
    ensures
        pos <= r.0 <= r.1 <= r.2 <= s@.len(),
        r.2 > pos,
        r.0 == pos,
        lines(s@.skip(pos as int)) == seq![s@.subrange(r.0 as int, r.1 as int)] + lines(
            s@.skip(r.2 as int),
        ),
{
    let ghost t = s@.skip(pos as int);
    let mut e = pos;
    while e < s.len() && s[e] != '\n'
        invariant
            pos <= e <= s@.len(),
            forall|i: int| pos <= i < e ==> s@[i] != '\n',
        decreases s@.len() - e,
    {
        e = e + 1;
    }
    proof {
        assert forall|i: int| 0 <= i < e - pos implies t[i] != '\n' by {
            assert(t[i] == s@[pos + i]);
        }
        if e < s@.len() {
            assert(t[e - pos] == s@[e as int]);
        }
        lemma_index_of(t, '\n', (e - pos) as nat);
    }
    if e == s.len() {
        assert(t =~= s@.subrange(pos as int, e as int));
        assert(s@.skip(e as int) =~= Seq::<char>::empty());
        assert(lines(s@.skip(e as int)) =~= Seq::<Seq<char>>::empty());
        assert(lines(t) =~= seq![s@.subrange(pos as int, e as int)] + lines(s@.skip(e as int)));
        return (pos, e, e);
    }
    let hi = if e > pos && s[e - 1] == '\r' { e - 1 } else { e };
    proof {
        assert(t.take(e - pos) =~= s@.subrange(pos as int, e as int));
        assert(strip_cr(t.take(e - pos)) =~= s@.subrange(pos as int, hi as int));
        assert(t.skip(e - pos + 1) =~= s@.skip(e + 1));
    }
    (pos, hi, e + 1)
}

/// The first place `p` starts in `s` at or after `i`.
pub open spec fn find_from(s: Seq<char>, p: Seq<char>, i: nat) -> Option<nat>
    decreases s.len() - i,
{
    if i >= s.len() || i + p.len() > s.len() {
        None
    } else if s.subrange(i as int, (i + p.len()) as int) == p {
        Some(i)
    } else {
        find_from(s, p, i + 1)
    }
}

/// Where `p` first starts in `s[lo..hi]`, counted from `lo`.
pub fn find_in(s: &Vec<char>, lo: usize, hi: usize, p: &str) -> (r: Option<usize>)
    requires
        lo <= hi <= s@.len(),
    ensures
        r == (match find_from(s@.subrange(lo as int, hi as int), p@, 0) {
            Some(k) => Some(k as usize),
            None => None::<usize>,
        }),
{
    let ghost t = s@.subrange(lo as int, hi as int);
    let plen = p.len();
    let pv = chars_of(p);
    let mut i: usize = lo;
    while i < hi
        invariant
            lo <= i <= hi <= s@.len(),
            t == s@.subrange(lo as int, hi as int),
            pv@ == p@,
            find_from(t, p@, (i - lo) as nat) == find_from(t, p@, 0),
        decreases hi - i,
    {
        if pv.len() > hi - i {
            return None;
        }
        let m = prefix_at(s, i, hi, p);
        proof {
            assert(s@.subrange(0, hi as int).subrange(i as int, i + p@.len()) =~= t.subrange(
                i - lo,
                i - lo + p@.len(),
            ));
        }
        if m {
            return Some(i - lo);
        }
        i = i + 1;
    }
    None
}

/// A `&str`'s characters with a `String` view: `text[lo..hi]` as a string.
pub fn substring(s: &Vec<char>, lo: usize, hi: usize) -> (r: String)
    requires
        lo <= hi <= s@.len(),
    ensures
        r@ == s@.subrange(lo as int, hi as int),
{
    string_of(s, lo, hi)
}


// ----- integer parsing with the reason for a refusal -----

/// Why `str::parse` / `from_str_radix` refused a text (`std::num::IntErrorKind`).
#[derive(Debug, Clone, Copy, PartialEq, Eq, Structural)]
pub enum IntErrorKind {
    Empty,
    InvalidDigit,
    PosOverflow,
    NegOverflow,
}

/// The text `std::num::ParseIntError` is displayed with.
pub open spec fn int_error_text(k: IntErrorKind) -> Seq<char> {
    match k {
        IntErrorKind::Empty => "cannot parse integer from empty string"@,
        IntErrorKind::InvalidDigit => "invalid digit found in string"@,
        IntErrorKind::PosOverflow => "number too large to fit in target type"@,
        IntErrorKind::NegOverflow => "number too small to fit in target type"@,
    }
}

pub fn int_error_message(k: IntErrorKind) -> (s: &'static str)
    ensures
        s@ == int_error_text(k),
{
    match k {
        IntErrorKind::Empty => "cannot parse integer from empty string",
        IntErrorKind::InvalidDigit => "invalid digit found in string",
        IntErrorKind::PosOverflow => "number too large to fit in target type",
        IntErrorKind::NegOverflow => "number too small to fit in target type",
    }
}

/// Digits read from position `i` on with the magnitude `acc` read so far:
/// the first character that is no digit is refused, and so is the first
/// digit that takes the magnitude past `limit`.
pub open spec fn scan_digits(d: Seq<char>, radix: int, limit: int, neg: bool, i: int, acc: int) -> Result<int, IntErrorKind>
    decreases d.len() - i,
{
    if i < 0 || i >= d.len() {
        Ok(if neg { -acc } else { acc })
    } else if digit_val(d[i], radix) < 0 {
        Err(IntErrorKind::InvalidDigit)
    } else if acc * radix + digit_val(d[i], radix) > limit {
        Err(if neg { IntErrorKind::NegOverflow } else { IntErrorKind::PosOverflow })
    } else {
        scan_digits(d, radix, limit, neg, i + 1, acc * radix + digit_val(d[i], radix))
    }
}

/// `from_str_radix` for an integer type with range `lo..=hi`: a lone sign is
/// an invalid digit, a leading `+` (and, when `signed`, `-`) is dropped, and
/// the digits are read left to right.
pub open spec fn int_from_str(s: Seq<char>, radix: int, signed: bool, lo: int, hi: int) -> Result<int, IntErrorKind> {
    if s.len() == 0 {
        Err(IntErrorKind::Empty)
    } else if (s[0] == '+' || s[0] == '-') && s.len() == 1 {
        Err(IntErrorKind::InvalidDigit)
    } else {
        let neg = signed && s[0] == '-';
        let digits = if s[0] == '+' || neg { s.drop_first() } else { s };
        scan_digits(digits, radix, if neg { -lo } else { hi }, neg, 0, 0)
    }
}

proof fn lemma_scan_bounds(d: Seq<char>, radix: int, limit: int, neg: bool, i: int, acc: int)
    requires
        0 <= acc <= limit,
        radix >= 1,
    ensures
        scan_digits(d, radix, limit, neg, i, acc) matches Ok(v) ==> (if neg { -limit <= v <= 0 } else { 0 <= v <= limit }),
    decreases d.len() - i,
{
    if !(i < 0 || i >= d.len()) && digit_val(d[i], radix) >= 0 && acc * radix + digit_val(d[i], radix) <= limit {
        assert(acc * radix >= 0) by (nonlinear_arith)
            requires acc >= 0, radix >= 1;
        lemma_scan_bounds(d, radix, limit, neg, i + 1, acc * radix + digit_val(d[i], radix));
    }
}

/// Parse `s[lo..hi]` as `from_str_radix` does for a type with range
/// `min..=max`, telling why a text is refused.
#[verifier::loop_isolation(false)]
pub fn parse_int_detailed(s: &Vec<char>, lo: usize, hi: usize, radix: u32, signed: bool, min: i128, max: i128) -> (r: Result<i128, IntErrorKind>)
    requires
        lo <= hi <= s@.len(),
        radix == 10 || radix == 16,
        -0x1_0000_0000_0000_0000 <= min <= 0 <= max <= 0x1_0000_0000_0000_0000,
    ensures
        match r {
            Ok(v) => int_from_str(s@.subrange(lo as int, hi as int), radix as int, signed, min as int, max as int) == Ok::<int, IntErrorKind>(v as int)
                && min <= v <= max,
            Err(k) => int_from_str(s@.subrange(lo as int, hi as int), radix as int, signed, min as int, max as int) == Err::<int, IntErrorKind>(k),
        },
{
    let ghost t = s@.subrange(lo as int, hi as int);
    if lo == hi {
        return Err(IntErrorKind::Empty);
    }
    if (s[lo] == '+' || s[lo] == '-') && hi - lo == 1 {
        return Err(IntErrorKind::InvalidDigit);
    }
    let neg = signed && s[lo] == '-';
    let start = if s[lo] == '+' || neg { lo + 1 } else { lo };
    let ghost d = s@.subrange(start as int, hi as int);
    assert(d =~= (if t[0] == '+' || neg { t.drop_first() } else { t }));
    let limit: i128 = if neg { -min } else { max };
    let ghost whole = scan_digits(d, radix as int, limit as int, neg, 0, 0);
    proof {
        lemma_scan_bounds(d, radix as int, limit as int, neg, 0, 0);
    }
    let mut acc: i128 = 0;
    let mut k = start;
    while k < hi
        invariant
            start <= k <= hi <= s@.len(),
            d == s@.subrange(start as int, hi as int),
            radix == 10 || radix == 16,
            0 <= limit <= 0x1_0000_0000_0000_0000,
            0 <= acc <= limit,
            whole == scan_digits(d, radix as int, limit as int, neg, k - start, acc as int),
        decreases hi - k,
    {
        assert(d[k - start] == s@[k as int]);
        let dv = digit_value(s[k], radix);
        if dv < 0 {
            return Err(IntErrorKind::InvalidDigit);
        }
        assert(acc * (radix as i128) <= 0x1_0000_0000_0000_0000 * 16) by (nonlinear_arith)
            requires 0 <= acc <= 0x1_0000_0000_0000_0000, radix <= 16;
        assert(acc * (radix as i128) >= 0) by (nonlinear_arith)
            requires 0 <= acc, radix >= 0;
        let next: i128 = acc * (radix as i128) + (dv as i128);
        if next > limit {
            return Err(if neg { IntErrorKind::NegOverflow } else { IntErrorKind::PosOverflow });
        }
        acc = next;
        k = k + 1;
    }
    assert(scan_digits(d, radix as int, limit as int, neg, k - start, acc as int) == Ok::<int, IntErrorKind>(
        if neg { -acc } else { acc as int }));
    if neg {
        Ok(-acc)
    } else {
        Ok(acc)
    }
}

} // verus!
