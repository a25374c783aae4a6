//! Little-endian integer codecs over byte sequences.
//!
//! Every binary format of the library is a sequence of little-endian fields.
//! The spec functions here say what a field decodes to and what a value
//! encodes to; the executable helpers read and append such fields.
use vstd::prelude::*;

verus! {

/// The `u16` stored little-endian at `i`.
pub open spec fn u16_at(s: Seq<u8>, i: int) -> u16 {
    (s[i] as int + 256 * s[i + 1] as int) as u16
}

/// The `u32` stored little-endian at `i`.
pub open spec fn u32_at(s: Seq<u8>, i: int) -> u32 {
    (s[i] as int + 256 * s[i + 1] as int + 65536 * s[i + 2] as int + 16777216 * s[i + 3] as int) as u32
}

/// Two's complement reading of a byte.
pub open spec fn i8_of(b: u8) -> i8 {
    if b < 128 { b as i8 } else { (b as int - 256) as i8 }
}

/// Two's complement byte of an `i8`.
pub open spec fn u8_of(v: i8) -> u8 {
    if v >= 0 { v as u8 } else { (v as int + 256) as u8 }
}

/// Two's complement reading of a `u16`.
pub open spec fn i16_of(v: u16) -> i16 {
    if v < 32768 { v as i16 } else { (v as int - 65536) as i16 }
}

/// Two's complement `u16` of an `i16`.
pub open spec fn u16_of(v: i16) -> u16 {
    if v >= 0 { v as u16 } else { (v as int + 65536) as u16 }
}

/// Two's complement reading of a `u32`.
pub open spec fn i32_of(v: u32) -> i32 {
    if v < 0x8000_0000 { v as i32 } else { (v as int - 0x1_0000_0000) as i32 }
}

/// Two's complement `u32` of an `i32`.
pub open spec fn u32_of(v: i32) -> u32 {
    if v >= 0 { v as u32 } else { (v as int + 0x1_0000_0000) as u32 }
}

/// The two little-endian bytes of a `u16`.
pub open spec fn enc_u16(v: u16) -> Seq<u8> {
    seq![(v % 256) as u8, (v / 256) as u8]
}

/// The four little-endian bytes of a `u32`.
pub open spec fn enc_u32(v: u32) -> Seq<u8> {
    seq![
        (v % 256) as u8,
        ((v / 256) % 256) as u8,
        ((v / 65536) % 256) as u8,
        (v / 16777216) as u8,
    ]
}

pub open spec fn enc_i16(v: i16) -> Seq<u8> {
    enc_u16(u16_of(v))
}

pub open spec fn enc_i32(v: i32) -> Seq<u8> {
    enc_u32(u32_of(v))
}

/// A `u16` encoded at the end of a prefix decodes back to itself.
pub proof fn lemma_u16_roundtrip(pre: Seq<u8>, v: u16, post: Seq<u8>)
    ensures
        u16_at(pre + enc_u16(v) + post, pre.len() as int) == v,
        (pre + enc_u16(v) + post).len() == pre.len() + 2 + post.len(),
{
    let s = pre + enc_u16(v) + post;
    assert(s[pre.len() as int] == (v % 256) as u8);
    assert(s[pre.len() as int + 1] == (v / 256) as u8);
}

/// A `u32` encoded at the end of a prefix decodes back to itself.
pub proof fn lemma_u32_roundtrip(pre: Seq<u8>, v: u32, post: Seq<u8>)
    ensures
        u32_at(pre + enc_u32(v) + post, pre.len() as int) == v,
        (pre + enc_u32(v) + post).len() == pre.len() + 4 + post.len(),
{
    let s = pre + enc_u32(v) + post;
    let n = pre.len() as int;
    assert(s[n] == (v % 256) as u8);
    assert(s[n + 1] == ((v / 256) % 256) as u8);
    assert(s[n + 2] == ((v / 65536) % 256) as u8);
    assert(s[n + 3] == (v / 16777216) as u8);
    assert(v as int == (v % 256) + 256 * ((v / 256) % 256) + 65536 * ((v / 65536) % 256) + 16777216 * (v / 16777216)) by (nonlinear_arith);
}

/// Decoding the bytes of a little-endian `u16` and encoding them again gives the same bytes.
pub proof fn lemma_enc_u16_of_bytes(a: u8, b: u8)
    ensures
        enc_u16((a as int + 256 * b as int) as u16) == seq![a, b],
{
    let v = (a as int + 256 * b as int) as u16;
    assert(v % 256 == a);
    assert(v / 256 == b);
    assert(enc_u16(v) =~= seq![a, b]);
}

/// Decoding the bytes of a little-endian `u32` and encoding them again gives the same bytes.
pub proof fn lemma_enc_u32_of_bytes(a: u8, b: u8, c: u8, d: u8)
    ensures
        enc_u32((a as int + 256 * b as int + 65536 * c as int + 16777216 * d as int) as u32)
            == seq![a, b, c, d],
{
    let v = (a as int + 256 * b as int + 65536 * c as int + 16777216 * d as int) as u32;
    assert(v as int == a as int + 256 * b as int + 65536 * c as int + 16777216 * d as int);
    assert(v % 256 == a) by (nonlinear_arith)
        requires v as int == a as int + 256 * b as int + 65536 * c as int + 16777216 * d as int, a < 256;
    assert(v / 256 == b as int + 256 * c as int + 65536 * d as int) by (nonlinear_arith)
        requires v as int == a as int + 256 * b as int + 65536 * c as int + 16777216 * d as int, a < 256;
    assert(v / 65536 == c as int + 256 * d as int) by (nonlinear_arith)
        requires v as int == a as int + 256 * b as int + 65536 * c as int + 16777216 * d as int, a < 256, b < 256;
    assert(v / 16777216 == d) by (nonlinear_arith)
        requires v as int == a as int + 256 * b as int + 65536 * c as int + 16777216 * d as int, a < 256, b < 256, c < 256;
    assert(enc_u32(v) =~= seq![a, b, c, d]);
}

/// Read the little-endian `u16` at `off`.
pub fn read_u16(data: &[u8], off: usize) -> (v: u16)
    requires
        off + 2 <= data@.len(),
    ensures
        v == u16_at(data@, off as int),
{
    (data[off] as u16) + (data[off + 1] as u16) * 256
}

/// Read the little-endian `u32` at `off`.
pub fn read_u32(data: &[u8], off: usize) -> (v: u32)
    requires
        off + 4 <= data@.len(),
    ensures
        v == u32_at(data@, off as int),
{
    (data[off] as u32) + (data[off + 1] as u32) * 256 + (data[off + 2] as u32) * 65536 + (data[
        off + 3] as u32) * 16777216
}

/// Two's complement reading of a byte.
pub fn to_i8(b: u8) -> (v: i8)
    ensures
        v == i8_of(b),
{
    if b < 128 {
        b as i8
    } else {
        (b as i16 - 256) as i8
    }
}

/// Two's complement byte of an `i8`.
pub fn from_i8(v: i8) -> (b: u8)
    ensures
        b == u8_of(v),
{
    if v >= 0 {
        v as u8
    } else {
        (v as i16 + 256) as u8
    }
}

/// Two's complement reading of a `u16`.
pub fn to_i16(v: u16) -> (r: i16)
    ensures
        r == i16_of(v),
{
    if v < 32768 {
        v as i16
    } else {
        (v as i32 - 65536) as i16
    }
}

/// Two's complement `u16` of an `i16`.
pub fn from_i16(v: i16) -> (r: u16)
    ensures
        r == u16_of(v),
{
    if v >= 0 {
        v as u16
    } else {
        (v as i32 + 65536) as u16
    }
}

/// Two's complement reading of a `u32`.
pub fn to_i32(v: u32) -> (r: i32)
    ensures
        r == i32_of(v),
{
    if v < 0x8000_0000 {
        v as i32
    } else {
        (v as i64 - 0x1_0000_0000) as i32
    }
}

/// Two's complement `u32` of an `i32`.
pub fn from_i32(v: i32) -> (r: u32)
    ensures
        r == u32_of(v),
{
    if v >= 0 {
        v as u32
    } else {
        (v as i64 + 0x1_0000_0000) as u32
    }
}

/// Append the little-endian bytes of a `u16`.
pub fn push_u16(out: &mut Vec<u8>, v: u16)
    ensures
        final(out)@ == old(out)@ + enc_u16(v),
{
    out.push((v % 256) as u8);
    out.push((v / 256) as u8);
    assert(final(out)@ =~= old(out)@ + enc_u16(v));
}

/// Append the little-endian bytes of a `u32`.
pub fn push_u32(out: &mut Vec<u8>, v: u32)
    ensures
        final(out)@ == old(out)@ + enc_u32(v),
{
    out.push((v % 256) as u8);
    out.push(((v / 256) % 256) as u8);
    out.push(((v / 65536) % 256) as u8);
    out.push((v / 16777216) as u8);
    assert(final(out)@ =~= old(out)@ + enc_u32(v));
}

/// Append `n` zero bytes.
pub fn push_zeros(out: &mut Vec<u8>, n: usize)
    ensures
        final(out)@ == old(out)@ + Seq::new(n as nat, |i: int| 0u8),
{
    let ghost start = out@;
    let mut k: usize = 0;
    while k < n
        invariant
            k <= n,
            out@ == start + Seq::new(k as nat, |i: int| 0u8),
        decreases n - k,
    {
        out.push(0u8);
        k = k + 1;
        assert(out@ =~= start + Seq::new(k as nat, |i: int| 0u8));
    }
}

// ----- streams of u16 words ended by 0xFFFF -----

/// The little-endian bytes of a word sequence.
pub open spec fn enc_words(ws: Seq<u16>) -> Seq<u8>
    decreases ws.len(),
{
    if ws.len() == 0 {
        Seq::empty()
    } else {
        enc_words(ws.drop_last()) + enc_u16(ws.last())
    }
}

/// The `k`-th little-endian word of a byte sequence.
pub open spec fn word_at(data: Seq<u8>, k: int) -> u16 {
    u16_at(data, 2 * k)
}

/// The first `n` words of a byte sequence.
pub open spec fn words_of(data: Seq<u8>, n: nat) -> Seq<u16> {
    Seq::new(n, |k: int| word_at(data, k))
}

/// Word `n` is the first terminator word of `data`.
pub open spec fn terminated_at(data: Seq<u8>, n: nat) -> bool {
    &&& 2 * n + 2 <= data.len()
    &&& word_at(data, n as int) == 0xFFFF
    &&& forall|k: int| 0 <= k < n ==> word_at(data, k) != 0xFFFF
}

/// `data` holds a terminator word somewhere in its complete words.
pub open spec fn has_terminator(data: Seq<u8>) -> bool {
    exists|n: nat| #[trigger] terminated_at(data, n)
}

pub proof fn lemma_enc_words(ws: Seq<u16>, rest: Seq<u8>)
    ensures
        enc_words(ws).len() == 2 * ws.len(),
        forall|k: int| 0 <= k < ws.len() ==> #[trigger] word_at(enc_words(ws) + rest, k) == ws[k],
    decreases ws.len(),
{
    if ws.len() > 0 {
        let pre = ws.drop_last();
        lemma_enc_words(pre, enc_u16(ws.last()) + rest);
        lemma_u16_roundtrip(enc_words(pre), ws.last(), rest);
        assert(enc_words(ws) + rest =~= enc_words(pre) + (enc_u16(ws.last()) + rest));
        assert(enc_words(ws) + rest =~= enc_words(pre) + enc_u16(ws.last()) + rest);
        assert forall|k: int| 0 <= k < ws.len() implies #[trigger] word_at(enc_words(ws) + rest, k) == ws[k] by {
            if k < pre.len() {
                assert(word_at(enc_words(pre) + (enc_u16(ws.last()) + rest), k) == pre[k]);
            }
        }
    }
}

pub proof fn lemma_enc_words_append(a: Seq<u16>, b: Seq<u16>)
    ensures
        enc_words(a + b) == enc_words(a) + enc_words(b),
    decreases b.len(),
{
    if b.len() == 0 {
        assert(a + b =~= a);
        assert(enc_words(b) =~= Seq::<u8>::empty());
        assert(enc_words(a) + enc_words(b) =~= enc_words(a));
    } else {
        lemma_enc_words_append(a, b.drop_last());
        assert((a + b).drop_last() =~= a + b.drop_last());
        assert((a + b).last() == b.last());
        assert(enc_words(a + b) =~= enc_words(a) + enc_words(b));
    }
}

/// The first terminator of a byte sequence is unique.
pub proof fn lemma_terminator_unique(data: Seq<u8>, n1: nat, n2: nat)
    requires
        terminated_at(data, n1),
        terminated_at(data, n2),
    ensures
        n1 == n2,
{
    if n1 < n2 {
        assert(word_at(data, n1 as int) != 0xFFFF);
    } else if n2 < n1 {
        assert(word_at(data, n2 as int) != 0xFFFF);
    }
}

// ----- lists of fixed-size records -----

/// The bytes of the elements of `s`, each encoded by `enc`, in order.
pub open spec fn flat_map<T>(s: Seq<T>, enc: spec_fn(T) -> Seq<u8>) -> Seq<u8>
    decreases s.len(),
{
    if s.len() == 0 {
        Seq::empty()
    } else {
        enc(s[0]) + flat_map(s.drop_first(), enc)
    }
}

/// `n` records of `k` bytes at the front of `b`; record `i` is read by
/// `dec` from byte `k * i` on.
pub open spec fn list_dec<T>(b: Seq<u8>, k: nat, n: nat, dec: spec_fn(Seq<u8>) -> T) -> Seq<T> {
    Seq::new(n, |i: int| dec(b.skip(k * i)))
}

pub proof fn lemma_flat_map_push<T>(s: Seq<T>, x: T, enc: spec_fn(T) -> Seq<u8>)
    ensures
        flat_map(s.push(x), enc) == flat_map(s, enc) + enc(x),
    decreases s.len(),
{
    if s.len() == 0 {
        assert(s.push(x).drop_first() =~= Seq::<T>::empty());
        assert(flat_map(s.push(x).drop_first(), enc) =~= Seq::<u8>::empty());
        assert(s.push(x)[0] == x);
        assert(flat_map(s.push(x), enc) =~= flat_map(s, enc) + enc(x));
    } else {
        lemma_flat_map_push(s.drop_first(), x, enc);
        assert(s.push(x).drop_first() =~= s.drop_first().push(x));
        assert(flat_map(s.push(x), enc) =~= flat_map(s, enc) + enc(x));
    }
}

/// Records written by `enc` are read back by `dec`, whatever follows them.
pub proof fn lemma_flat_map_decode<T>(
    s: Seq<T>,
    enc: spec_fn(T) -> Seq<u8>,
    dec: spec_fn(Seq<u8>) -> T,
    k: nat,
    rest: Seq<u8>,
)
    requires
        forall|i: int| 0 <= i < s.len() ==> #[trigger] enc(s[i]).len() == k,
        forall|i: int, r: Seq<u8>| 0 <= i < s.len() ==> dec(#[trigger] (enc(s[i]) + r)) == s[i],
    ensures
        flat_map(s, enc).len() == k * s.len(),
        list_dec(flat_map(s, enc) + rest, k, s.len(), dec) == s,
    decreases s.len(),
{
    if s.len() == 0 {
        assert(list_dec(flat_map(s, enc) + rest, k, s.len(), dec) =~= s);
    } else {
        let t = s.drop_first();
        assert forall|i: int| 0 <= i < t.len() implies #[trigger] enc(t[i]).len() == k by {
            assert(t[i] == s[i + 1]);
        }
        assert forall|i: int, r: Seq<u8>| 0 <= i < t.len() implies dec(#[trigger] (enc(t[i]) + r))
            == t[i] by {
            assert(t[i] == s[i + 1]);
        }
        lemma_flat_map_decode(t, enc, dec, k, rest);
        let x = flat_map(t, enc) + rest;
        let all = flat_map(s, enc) + rest;
        assert(all =~= enc(s[0]) + x);
        assert(k * s.len() == k + k * t.len()) by (nonlinear_arith)
            requires s.len() == t.len() + 1;
        assert forall|i: int| 0 <= i < s.len() implies #[trigger] list_dec(all, k, s.len(), dec)[i]
            == s[i] by {
            if i == 0 {
                assert(all.skip(0) =~= enc(s[0]) + x);
            } else {
                assert(k * i == k + k * (i - 1)) by (nonlinear_arith)
                    requires i >= 1;
                assert(k * (i - 1) >= 0) by (nonlinear_arith)
                    requires i >= 1;
                assert(k * (i - 1) <= k * t.len()) by (nonlinear_arith)
                    requires i - 1 < t.len();
                assert(all.skip(k * i) =~= x.skip(k * (i - 1)));
                assert(list_dec(x, k, t.len(), dec)[i - 1] == t[i - 1]);
            }
        }
        assert(list_dec(all, k, s.len(), dec) =~= s);
    }
}

/// Skipping the first part of a concatenation leaves the second.
pub proof fn lemma_skip_cat(a: Seq<u8>, b: Seq<u8>)
    ensures
        (a + b).skip(a.len() as int) == b,
{
    assert((a + b).skip(a.len() as int) =~= b);
}

/// Two skips are one.
pub proof fn lemma_skip_skip(s: Seq<u8>, m: int, n: int)
    requires
        0 <= m,
        0 <= n,
        m + n <= s.len(),
    ensures
        s.skip(m).skip(n) == s.skip(m + n),
{
    assert(s.skip(m).skip(n) =~= s.skip(m + n));
}

/// Flattening one more segment onto the first `j`.
pub proof fn lemma_take_flatten_alt_step(segs: Seq<Seq<u8>>, j: int)
    requires
        0 <= j < segs.len(),
    ensures
        segs.take(j + 1).flatten_alt() == segs.take(j).flatten_alt() + segs[j],
{
    assert(segs.take(j + 1).drop_last() =~= segs.take(j));
}

/// The segments from `j` on are segment `j`, then those after it.
pub proof fn lemma_skip_flatten_step(segs: Seq<Seq<u8>>, j: int)
    requires
        0 <= j < segs.len(),
    ensures
        segs.skip(j).flatten() == segs[j] + segs.skip(j + 1).flatten(),
{
    assert(segs.skip(j).drop_first() =~= segs.skip(j + 1));
}

/// `u32_at` past a skip.
pub proof fn lemma_u32_at_skip(s: Seq<u8>, m: int, i: int)
    requires
        0 <= m,
        0 <= i,
        m + i + 4 <= s.len(),
    ensures
        u32_at(s.skip(m), i) == u32_at(s, m + i),
{
}

/// `u16_at` past a skip.
pub proof fn lemma_u16_at_skip(s: Seq<u8>, m: int, i: int)
    requires
        0 <= m,
        0 <= i,
        m + i + 2 <= s.len(),
    ensures
        u16_at(s.skip(m), i) == u16_at(s, m + i),
{
}

/// Records of `k` bytes each take `k` bytes apiece.
pub proof fn lemma_flat_map_len<T>(s: Seq<T>, enc: spec_fn(T) -> Seq<u8>, k: nat)
    requires
        forall|i: int| 0 <= i < s.len() ==> #[trigger] enc(s[i]).len() == k,
    ensures
        flat_map(s, enc).len() == k * s.len(),
    decreases s.len(),
{
    if s.len() > 0 {
        let t = s.drop_first();
        assert forall|i: int| 0 <= i < t.len() implies #[trigger] enc(t[i]).len() == k by {
            assert(t[i] == s[i + 1]);
        }
        lemma_flat_map_len(t, enc, k);
        assert(k * s.len() == k + k * t.len()) by (nonlinear_arith)
            requires s.len() == t.len() + 1;
    }
}

/// A `u32` is the sum of its four little-endian bytes.
pub proof fn lemma_u32_bytes_sum(v: u32)
    ensures
        v as int == (v % 256) + 256 * ((v / 256) % 256) + 65536 * ((v / 65536) % 256) + 16777216 * (v
            / 16777216),
        v / 16777216 < 256,
{
    assert(v as int == (v % 256) + 256 * ((v / 256) % 256) + 65536 * ((v / 65536) % 256) + 16777216
        * (v / 16777216)) by (nonlinear_arith);
}

/// The `u32` at `o` is the one encoded where the bytes from `o` start.
pub proof fn lemma_u32_front(e: Seq<u8>, o: int, v: u32, r: Seq<u8>)
    requires
        0 <= o,
        o + 4 <= e.len(),
        e.skip(o) == enc_u32(v) + r,
    ensures
        u32_at(e, o) == v,
{
    lemma_u32_at_skip(e, o, 0);
    lemma_u32_roundtrip(Seq::empty(), v, r);
    assert(Seq::<u8>::empty() + enc_u32(v) + r =~= enc_u32(v) + r);
}

} // verus!
