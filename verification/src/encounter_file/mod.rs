//! Wild encounter tables in their binary form.
//!
//! Diamond/Pearl/Platinum store a 424-byte table of little-endian `u32`
//! words (water slots: max level, min level, two pad bytes, species);
//! HeartGold/SoulSilver store a 196-byte table of bytes and `u16` species,
//! and writing appends the swarm species once more.
pub mod json;

use vstd::prelude::*;
use crate::bytes::{u16_at, u32_at, enc_u16, enc_u32, read_u16, read_u32, push_u16, push_u32,
    push_zeros, flat_map, list_dec, lemma_flat_map_push, lemma_flat_map_decode, lemma_skip_cat,
    lemma_skip_skip, lemma_take_flatten_alt_step, lemma_skip_flatten_step, lemma_u32_at_skip,
    lemma_u16_at_skip};
use crate::error::{UxieError, ErrorKind};
use crate::game::GameFamily;
use crate::text::{dec, push_dec, push_str};

verus! {

pub const DPPT_ENCOUNTER_FILE_SIZE: usize = 424;

pub const HGSS_ENCOUNTER_FILE_SIZE: usize = 196;

/// A land slot: level and species.
#[derive(Debug, Clone, Copy, PartialEq, Eq, Default, Structural)]
pub struct EncounterEntry {
    pub level: u8,
    pub species: u32,
}

/// A water or rock smash slot: level range and species.
#[derive(Debug, Clone, Copy, PartialEq, Eq, Default, Structural)]
pub struct WaterEncounterEntry {
    pub min_level: u8,
    pub max_level: u8,
    pub species: u32,
}

/// The encounter table of one map, with the fields of every game family.
#[derive(Debug, Clone, PartialEq, Eq)]
pub struct BinaryEncounterFile {
    pub walking_rate: u32,
    pub grass_encounters: [EncounterEntry; 12],
    pub swarm_encounters: [u32; 4],
    pub day_encounters: [u32; 12],
    pub night_encounters: [u32; 12],
    pub radar_encounters: [u32; 4],
    pub music_encounters: [u32; 4],
    pub form_encounter_rates: [u32; 5],
    pub unown_table_id: u32,
    pub dual_slot_ruby: [u32; 2],
    pub dual_slot_sapphire: [u32; 2],
    pub dual_slot_emerald: [u32; 2],
    pub dual_slot_firered: [u32; 2],
    pub dual_slot_leafgreen: [u32; 2],
    pub surf_rate: u32,
    pub surf_encounters: [WaterEncounterEntry; 5],
    pub old_rod_rate: u32,
    pub old_rod_encounters: [WaterEncounterEntry; 5],
    pub good_rod_rate: u32,
    pub good_rod_encounters: [WaterEncounterEntry; 5],
    pub super_rod_rate: u32,
    pub super_rod_encounters: [WaterEncounterEntry; 5],
    pub rock_smash_rate: u32,
    pub rock_smash_encounters: [WaterEncounterEntry; 2],
    pub morning_encounters: [EncounterEntry; 12],
}

// ----- record codecs -----

/// `n` zero bytes.
pub open spec fn zeros(n: nat) -> Seq<u8> {
    Seq::new(n, |i: int| 0u8)
}

pub open spec fn u32s_bytes(s: Seq<u32>) -> Seq<u8> {
    flat_map(s, |v: u32| enc_u32(v))
}

/// `n` little-endian `u32` words.
pub open spec fn u32_list(b: Seq<u8>, n: nat) -> Seq<u32> {
    list_dec(b, 4, n, |c: Seq<u8>| u32_at(c, 0))
}

/// Species written as `u16` words (truncated to 16 bits).
pub open spec fn u16s_bytes(s: Seq<u32>) -> Seq<u8> {
    flat_map(s, |v: u32| enc_u16(v as u16))
}

/// `n` little-endian `u16` words, widened.
pub open spec fn u16_list(b: Seq<u8>, n: nat) -> Seq<u32> {
    list_dec(b, 2, n, |c: Seq<u8>| u16_at(c, 0) as u32)
}

/// One byte per level.
pub open spec fn levels_bytes(s: Seq<u8>) -> Seq<u8> {
    flat_map(s, |l: u8| seq![l])
}

pub open spec fn levels_of(s: Seq<EncounterEntry>) -> Seq<u8> {
    s.map_values(|e: EncounterEntry| e.level)
}

pub open spec fn species_of(s: Seq<EncounterEntry>) -> Seq<u32> {
    s.map_values(|e: EncounterEntry| e.species)
}

pub open spec fn water_species_of(s: Seq<WaterEncounterEntry>) -> Seq<u32> {
    s.map_values(|e: WaterEncounterEntry| e.species)
}

/// A land slot in Diamond/Pearl/Platinum: level and species as `u32` words.
pub open spec fn dppt_grass_enc(e: EncounterEntry) -> Seq<u8> {
    enc_u32(e.level as u32) + enc_u32(e.species)
}

/// Reading a land slot keeps the low byte of the level word.
pub open spec fn dppt_grass_dec(c: Seq<u8>) -> EncounterEntry {
    EncounterEntry { level: c[0], species: u32_at(c, 4) }
}

pub open spec fn dppt_grass_bytes(s: Seq<EncounterEntry>) -> Seq<u8> {
    flat_map(s, |e: EncounterEntry| dppt_grass_enc(e))
}

pub open spec fn dppt_grass_list(b: Seq<u8>, n: nat) -> Seq<EncounterEntry> {
    list_dec(b, 8, n, |c: Seq<u8>| dppt_grass_dec(c))
}

/// A water slot in Diamond/Pearl/Platinum: max level, min level, two zero
/// bytes, species word.
pub open spec fn dppt_water_enc(e: WaterEncounterEntry) -> Seq<u8> {
    seq![e.max_level, e.min_level, 0u8, 0u8] + enc_u32(e.species)
}

pub open spec fn dppt_water_dec(c: Seq<u8>) -> WaterEncounterEntry {
    WaterEncounterEntry { min_level: c[1], max_level: c[0], species: u32_at(c, 4) }
}

pub open spec fn dppt_water_bytes(s: Seq<WaterEncounterEntry>) -> Seq<u8> {
    flat_map(s, |e: WaterEncounterEntry| dppt_water_enc(e))
}

pub open spec fn dppt_water_list(b: Seq<u8>, n: nat) -> Seq<WaterEncounterEntry> {
    list_dec(b, 8, n, |c: Seq<u8>| dppt_water_dec(c))
}

/// A water slot in HeartGold/SoulSilver: min level, max level, `u16` species.
pub open spec fn hgss_water_enc(e: WaterEncounterEntry) -> Seq<u8> {
    seq![e.min_level, e.max_level] + enc_u16(e.species as u16)
}

pub open spec fn hgss_water_dec(c: Seq<u8>) -> WaterEncounterEntry {
    WaterEncounterEntry { min_level: c[0], max_level: c[1], species: u16_at(c, 2) as u32 }
}

pub open spec fn hgss_water_bytes(s: Seq<WaterEncounterEntry>) -> Seq<u8> {
    flat_map(s, |e: WaterEncounterEntry| hgss_water_enc(e))
}

pub open spec fn hgss_water_list(b: Seq<u8>, n: nat) -> Seq<WaterEncounterEntry> {
    list_dec(b, 4, n, |c: Seq<u8>| hgss_water_dec(c))
}

proof fn lemma_u32s(s: Seq<u32>, rest: Seq<u8>)
    ensures
        u32s_bytes(s).len() == 4 * s.len(),
        u32_list(u32s_bytes(s) + rest, s.len()) == s,
{
    assert forall|i: int| 0 <= i < s.len() implies #[trigger] enc_u32(s[i]).len() == 4 by {}
    assert forall|i: int, r: Seq<u8>| 0 <= i < s.len() implies #[trigger] u32_at(enc_u32(s[i]) + r, 0) == s[i] by {
        crate::bytes::lemma_u32_roundtrip(Seq::empty(), s[i], r);
        assert(Seq::<u8>::empty() + enc_u32(s[i]) + r =~= enc_u32(s[i]) + r);
    }
    lemma_flat_map_decode(s, |v: u32| enc_u32(v), |c: Seq<u8>| u32_at(c, 0), 4, rest);
}

proof fn lemma_u16s(s: Seq<u32>, rest: Seq<u8>)
    requires
        forall|i: int| 0 <= i < s.len() ==> s[i] <= 0xFFFF,
    ensures
        u16s_bytes(s).len() == 2 * s.len(),
        u16_list(u16s_bytes(s) + rest, s.len()) == s,
{
    assert forall|i: int| 0 <= i < s.len() implies #[trigger] enc_u16(s[i] as u16).len() == 2 by {}
    assert forall|i: int, r: Seq<u8>| 0 <= i < s.len() implies #[trigger] u16_at(enc_u16(s[i] as u16) + r, 0) as u32 == s[i] by {
        crate::bytes::lemma_u16_roundtrip(Seq::empty(), s[i] as u16, r);
        assert(Seq::<u8>::empty() + enc_u16(s[i] as u16) + r =~= enc_u16(s[i] as u16) + r);
    }
    lemma_flat_map_decode(s, |v: u32| enc_u16(v as u16), |c: Seq<u8>| u16_at(c, 0) as u32, 2, rest);
}

proof fn lemma_levels(s: Seq<u8>, rest: Seq<u8>)
    ensures
        levels_bytes(s).len() == s.len(),
        list_dec(levels_bytes(s) + rest, 1, s.len(), |c: Seq<u8>| c[0]) == s,
{
    assert forall|i: int| 0 <= i < s.len() implies #[trigger] seq![s[i]].len() == 1 by {}
    assert forall|i: int, r: Seq<u8>| 0 <= i < s.len() implies #[trigger] (seq![s[i]] + r)[0] == s[i] by {
    }
    lemma_flat_map_decode(s, |l: u8| seq![l], |c: Seq<u8>| c[0], 1, rest);
}

proof fn lemma_dppt_grass(s: Seq<EncounterEntry>, rest: Seq<u8>)
    ensures
        dppt_grass_bytes(s).len() == 8 * s.len(),
        dppt_grass_list(dppt_grass_bytes(s) + rest, s.len()) == s,
{
    assert forall|i: int| 0 <= i < s.len() implies #[trigger] dppt_grass_enc(s[i]).len() == 8 by {}
    assert forall|i: int, r: Seq<u8>| 0 <= i < s.len() implies #[trigger] dppt_grass_dec(dppt_grass_enc(s[i]) + r) == s[i] by {
        let e = s[i];
        crate::bytes::lemma_u32_roundtrip(enc_u32(e.level as u32), e.species, r);
        assert((e.level as u32) % 256 == e.level as u32);
    }
    lemma_flat_map_decode(s, |e: EncounterEntry| dppt_grass_enc(e), |c: Seq<u8>| dppt_grass_dec(c), 8, rest);
}

proof fn lemma_dppt_water(s: Seq<WaterEncounterEntry>, rest: Seq<u8>)
    ensures
        dppt_water_bytes(s).len() == 8 * s.len(),
        dppt_water_list(dppt_water_bytes(s) + rest, s.len()) == s,
{
    assert forall|i: int| 0 <= i < s.len() implies #[trigger] dppt_water_enc(s[i]).len() == 8 by {}
    assert forall|i: int, r: Seq<u8>| 0 <= i < s.len() implies #[trigger] dppt_water_dec(dppt_water_enc(s[i]) + r) == s[i] by {
        let e = s[i];
        crate::bytes::lemma_u32_roundtrip(seq![e.max_level, e.min_level, 0u8, 0u8], e.species, r);
    }
    lemma_flat_map_decode(s, |e: WaterEncounterEntry| dppt_water_enc(e), |c: Seq<u8>| dppt_water_dec(c), 8, rest);
}

proof fn lemma_hgss_water(s: Seq<WaterEncounterEntry>, rest: Seq<u8>)
    requires
        forall|i: int| 0 <= i < s.len() ==> s[i].species <= 0xFFFF,
    ensures
        hgss_water_bytes(s).len() == 4 * s.len(),
        hgss_water_list(hgss_water_bytes(s) + rest, s.len()) == s,
{
    assert forall|i: int| 0 <= i < s.len() implies #[trigger] hgss_water_enc(s[i]).len() == 4 by {}
    assert forall|i: int, r: Seq<u8>| 0 <= i < s.len() implies #[trigger] hgss_water_dec(hgss_water_enc(s[i]) + r) == s[i] by {
        let e = s[i];
        crate::bytes::lemma_u16_roundtrip(seq![e.min_level, e.max_level], e.species as u16, r);
    }
    lemma_flat_map_decode(s, |e: WaterEncounterEntry| hgss_water_enc(e), |c: Seq<u8>| hgss_water_dec(c), 4, rest);
}

// ----- writers of record lists -----

fn push_u32s<const N: usize>(out: &mut Vec<u8>, s: &[u32; N], n: usize)
    requires
        n <= N,
    ensures
        final(out)@ == old(out)@ + u32s_bytes(s@.take(n as int)),
{
    let ghost start = out@;
    let mut i: usize = 0;
    while i < n
        invariant
            i <= n <= N,
            s@.len() == N,
            out@ == start + u32s_bytes(s@.take(i as int)),
        decreases n - i,
    {
        push_u32(out, s[i]);
        proof {
            lemma_flat_map_push(s@.take(i as int), s@[i as int], |v: u32| enc_u32(v));
            assert(s@.take(i + 1) =~= s@.take(i as int).push(s@[i as int]));
        }
        i = i + 1;
    }
}

fn push_u16s<const N: usize>(out: &mut Vec<u8>, s: &[u32; N])
    ensures
        final(out)@ == old(out)@ + u16s_bytes(s@),
{
    let ghost start = out@;
    let mut i: usize = 0;
    while i < N
        invariant
            i <= N,
            s@.len() == N,
            out@ == start + u16s_bytes(s@.take(i as int)),
        decreases N - i,
    {
        push_u16(out, s[i] as u16);
        proof {
            lemma_flat_map_push(s@.take(i as int), s@[i as int], |v: u32| enc_u16(v as u16));
            assert(s@.take(i + 1) =~= s@.take(i as int).push(s@[i as int]));
        }
        i = i + 1;
    }
    assert(s@.take(N as int) =~= s@);
}

fn push_dppt_grass<const N: usize>(out: &mut Vec<u8>, s: &[EncounterEntry; N])
    ensures
        final(out)@ == old(out)@ + dppt_grass_bytes(s@),
{
    let ghost start = out@;
    let mut i: usize = 0;
    while i < N
        invariant
            i <= N,
            s@.len() == N,
            out@ == start + dppt_grass_bytes(s@.take(i as int)),
        decreases N - i,
    {
        let e = s[i];
        push_u32(out, e.level as u32);
        push_u32(out, e.species);
        proof {
            lemma_flat_map_push(s@.take(i as int), e, |e: EncounterEntry| dppt_grass_enc(e));
            assert(s@.take(i + 1) =~= s@.take(i as int).push(e));
        }
        i = i + 1;
    }
    assert(s@.take(N as int) =~= s@);
}

fn push_dppt_water<const N: usize>(out: &mut Vec<u8>, s: &[WaterEncounterEntry; N])
    ensures
        final(out)@ == old(out)@ + dppt_water_bytes(s@),
{
    let ghost start = out@;
    let mut i: usize = 0;
    while i < N
        invariant
            i <= N,
            s@.len() == N,
            out@ == start + dppt_water_bytes(s@.take(i as int)),
        decreases N - i,
    {
        let e = s[i];
        out.push(e.max_level);
        out.push(e.min_level);
        out.push(0u8);
        out.push(0u8);
        push_u32(out, e.species);
        proof {
            lemma_flat_map_push(s@.take(i as int), e, |e: WaterEncounterEntry| dppt_water_enc(e));
            assert(s@.take(i + 1) =~= s@.take(i as int).push(e));
        }
        i = i + 1;
    }
    assert(s@.take(N as int) =~= s@);
}

fn push_hgss_water<const N: usize>(out: &mut Vec<u8>, s: &[WaterEncounterEntry; N])
    ensures
        final(out)@ == old(out)@ + hgss_water_bytes(s@),
{
    let ghost start = out@;
    let mut i: usize = 0;
    while i < N
        invariant
            i <= N,
            s@.len() == N,
            out@ == start + hgss_water_bytes(s@.take(i as int)),
        decreases N - i,
    {
        let e = s[i];
        out.push(e.min_level);
        out.push(e.max_level);
        push_u16(out, e.species as u16);
        proof {
            lemma_flat_map_push(s@.take(i as int), e, |e: WaterEncounterEntry| hgss_water_enc(e));
            assert(s@.take(i + 1) =~= s@.take(i as int).push(e));
        }
        i = i + 1;
    }
    assert(s@.take(N as int) =~= s@);
}

fn push_levels<const N: usize>(out: &mut Vec<u8>, s: &[EncounterEntry; N])
    ensures
        final(out)@ == old(out)@ + levels_bytes(levels_of(s@)),
{
    let ghost start = out@;
    let ghost ls = levels_of(s@);
    let mut i: usize = 0;
    while i < N
        invariant
            i <= N,
            s@.len() == N,
            ls == levels_of(s@),
            out@ == start + levels_bytes(ls.take(i as int)),
        decreases N - i,
    {
        out.push(s[i].level);
        proof {
            lemma_flat_map_push(ls.take(i as int), ls[i as int], |l: u8| seq![l]);
            assert(ls.take(i + 1) =~= ls.take(i as int).push(ls[i as int]));
        }
        i = i + 1;
    }
    assert(ls.take(N as int) =~= ls);
}

fn push_entry_species<const N: usize>(out: &mut Vec<u8>, s: &[EncounterEntry; N])
    ensures
        final(out)@ == old(out)@ + u16s_bytes(species_of(s@)),
{
    let ghost start = out@;
    let ghost sp = species_of(s@);
    let mut i: usize = 0;
    while i < N
        invariant
            i <= N,
            s@.len() == N,
            sp == species_of(s@),
            out@ == start + u16s_bytes(sp.take(i as int)),
        decreases N - i,
    {
        push_u16(out, s[i].species as u16);
        proof {
            lemma_flat_map_push(sp.take(i as int), sp[i as int], |v: u32| enc_u16(v as u16));
            assert(sp.take(i + 1) =~= sp.take(i as int).push(sp[i as int]));
        }
        i = i + 1;
    }
    assert(sp.take(N as int) =~= sp);
}

// ----- readers of record lists -----

fn fill_u32s<const N: usize>(data: &[u8], off: usize, a: &mut [u32; N])
    requires
        off + 4 * N <= data@.len(),
    ensures
        final(a)@ == u32_list(data@.skip(off as int), N as nat),
{
    let len = data.len();
    let mut i: usize = 0;
    while i < N
        invariant
            i <= N,
            len == data@.len(),
            off + 4 * N <= data@.len(),
            a@.len() == N,
            forall|k: int| 0 <= k < i ==> #[trigger] a@[k] == u32_list(data@.skip(off as int), N as nat)[k],
        decreases N - i,
    {
        let v = read_u32(data, off + 4 * i);
        proof {
            lemma_u32_at_skip(data@, off as int, 4 * i);
            lemma_u32_at_skip(data@.skip(off as int), 4 * i, 0);
            lemma_skip_skip(data@, off as int, 4 * i);
        }
        a.set(i, v);
        i = i + 1;
    }
    assert(a@ =~= u32_list(data@.skip(off as int), N as nat));
}

fn fill_u16s<const N: usize>(data: &[u8], off: usize, a: &mut [u32; N])
    requires
        off + 2 * N <= data@.len(),
    ensures
        final(a)@ == u16_list(data@.skip(off as int), N as nat),
{
    let len = data.len();
    let mut i: usize = 0;
    while i < N
        invariant
            i <= N,
            len == data@.len(),
            off + 2 * N <= data@.len(),
            a@.len() == N,
            forall|k: int| 0 <= k < i ==> #[trigger] a@[k] == u16_list(data@.skip(off as int), N as nat)[k],
        decreases N - i,
    {
        let v = read_u16(data, off + 2 * i);
        proof {
            lemma_u16_at_skip(data@, off as int, 2 * i);
            lemma_u16_at_skip(data@.skip(off as int), 2 * i, 0);
            lemma_skip_skip(data@, off as int, 2 * i);
        }
        a.set(i, v as u32);
        i = i + 1;
    }
    assert(a@ =~= u16_list(data@.skip(off as int), N as nat));
}

fn fill_dppt_water<const N: usize>(data: &[u8], off: usize, a: &mut [WaterEncounterEntry; N])
    requires
        off + 8 * N <= data@.len(),
    ensures
        final(a)@ == dppt_water_list(data@.skip(off as int), N as nat),
{
    let len = data.len();
    let mut i: usize = 0;
    while i < N
        invariant
            i <= N,
            len == data@.len(),
            off + 8 * N <= data@.len(),
            a@.len() == N,
            forall|k: int| 0 <= k < i ==> #[trigger] a@[k] == dppt_water_list(data@.skip(off as int), N as nat)[k],
        decreases N - i,
    {
        let p = off + 8 * i;
        let e = WaterEncounterEntry { min_level: data[p + 1], max_level: data[p], species: read_u32(data, p + 4) };
        proof {
            lemma_skip_skip(data@, off as int, 8 * i);
            lemma_u32_at_skip(data@, p as int, 4);
        }
        a.set(i, e);
        i = i + 1;
    }
    assert(a@ =~= dppt_water_list(data@.skip(off as int), N as nat));
}

fn fill_hgss_water<const N: usize>(data: &[u8], off: usize, a: &mut [WaterEncounterEntry; N])
    requires
        off + 4 * N <= data@.len(),
    ensures
        final(a)@ == hgss_water_list(data@.skip(off as int), N as nat),
{
    let len = data.len();
    let mut i: usize = 0;
    while i < N
        invariant
            i <= N,
            len == data@.len(),
            off + 4 * N <= data@.len(),
            a@.len() == N,
            forall|k: int| 0 <= k < i ==> #[trigger] a@[k] == hgss_water_list(data@.skip(off as int), N as nat)[k],
        decreases N - i,
    {
        let p = off + 4 * i;
        let e = WaterEncounterEntry { min_level: data[p], max_level: data[p + 1], species: read_u16(data, p + 2) as u32 };
        proof {
            lemma_skip_skip(data@, off as int, 4 * i);
            lemma_u16_at_skip(data@, p as int, 2);
        }
        a.set(i, e);
        i = i + 1;
    }
    assert(a@ =~= hgss_water_list(data@.skip(off as int), N as nat));
}


proof fn lemma_u16_lens(s: Seq<u32>)
    ensures
        u16s_bytes(s).len() == 2 * s.len(),
{
    assert forall|i: int| 0 <= i < s.len() implies #[trigger] enc_u16(s[i] as u16).len() == 2 by {}
    crate::bytes::lemma_flat_map_len(s, |v: u32| enc_u16(v as u16), 2);
}

proof fn lemma_hgss_water_lens(s: Seq<WaterEncounterEntry>)
    ensures
        hgss_water_bytes(s).len() == 4 * s.len(),
{
    assert forall|i: int| 0 <= i < s.len() implies #[trigger] hgss_water_enc(s[i]).len() == 4 by {}
    crate::bytes::lemma_flat_map_len(s, |e: WaterEncounterEntry| hgss_water_enc(e), 4);
}

/// The six rates as bytes, then two zero bytes.
pub open spec fn hgss_rates_bytes(f: BinaryEncounterFile) -> Seq<u8> {
    seq![
        f.walking_rate as u8,
        f.surf_rate as u8,
        f.rock_smash_rate as u8,
        f.old_rod_rate as u8,
        f.good_rod_rate as u8,
        f.super_rod_rate as u8,
        0u8,
        0u8,
    ]
}

/// The pieces of a Diamond/Pearl/Platinum table, in file order; bytes
/// 248..292 are zero.
pub open spec fn dppt_segments(f: BinaryEncounterFile) -> Seq<Seq<u8>> {
    seq![
        enc_u32(f.walking_rate),
        dppt_grass_bytes(f.grass_encounters@),
        u32s_bytes(f.swarm_encounters@.take(2)),
        u32s_bytes(f.day_encounters@.take(2)),
        u32s_bytes(f.night_encounters@.take(2)),
        u32s_bytes(f.radar_encounters@),
        u32s_bytes(f.form_encounter_rates@),
        enc_u32(f.unown_table_id),
        u32s_bytes(f.dual_slot_ruby@),
        u32s_bytes(f.dual_slot_sapphire@),
        u32s_bytes(f.dual_slot_emerald@),
        u32s_bytes(f.dual_slot_firered@),
        u32s_bytes(f.dual_slot_leafgreen@),
        enc_u32(f.surf_rate),
        dppt_water_bytes(f.surf_encounters@),
        zeros(44),
        enc_u32(f.old_rod_rate),
        dppt_water_bytes(f.old_rod_encounters@),
        enc_u32(f.good_rod_rate),
        dppt_water_bytes(f.good_rod_encounters@),
        enc_u32(f.super_rod_rate),
        dppt_water_bytes(f.super_rod_encounters@),
    ]
}

/// The 424 bytes of a Diamond/Pearl/Platinum table.
pub open spec fn dppt_encode(f: BinaryEncounterFile) -> Seq<u8> {
    dppt_segments(f).flatten()
}

/// The pieces of a HeartGold/SoulSilver table as written, in file order:
/// the 196 bytes that are read, then the swarm species again.
pub open spec fn hgss_segments(f: BinaryEncounterFile) -> Seq<Seq<u8>> {
    seq![
        hgss_rates_bytes(f),
        levels_bytes(levels_of(f.morning_encounters@)),
        u16s_bytes(species_of(f.morning_encounters@)),
        u16s_bytes(f.day_encounters@),
        u16s_bytes(f.night_encounters@),
        u16s_bytes(f.swarm_encounters@),
        u16s_bytes(f.music_encounters@),
        hgss_water_bytes(f.surf_encounters@),
        hgss_water_bytes(f.rock_smash_encounters@),
        hgss_water_bytes(f.old_rod_encounters@),
        hgss_water_bytes(f.good_rod_encounters@),
        hgss_water_bytes(f.super_rod_encounters@),
        u16s_bytes(f.swarm_encounters@),
    ]
}

/// The 204 bytes written for a HeartGold/SoulSilver table.
pub open spec fn hgss_encode(f: BinaryEncounterFile) -> Seq<u8> {
    hgss_segments(f).flatten()
}

#[verifier::rlimit(60)]
proof fn lemma_dppt_layout(f: BinaryEncounterFile)
    ensures
        dppt_segments(f).flatten().len() == 424,
        dppt_segments(f).flatten().skip(0) == dppt_segments(f)[0] + dppt_segments(f).skip(1).flatten(),
        dppt_segments(f).flatten().skip(4) == dppt_segments(f)[1] + dppt_segments(f).skip(2).flatten(),
        dppt_segments(f).flatten().skip(100) == dppt_segments(f)[2] + dppt_segments(f).skip(3).flatten(),
        dppt_segments(f).flatten().skip(108) == dppt_segments(f)[3] + dppt_segments(f).skip(4).flatten(),
        dppt_segments(f).flatten().skip(116) == dppt_segments(f)[4] + dppt_segments(f).skip(5).flatten(),
        dppt_segments(f).flatten().skip(124) == dppt_segments(f)[5] + dppt_segments(f).skip(6).flatten(),
        dppt_segments(f).flatten().skip(140) == dppt_segments(f)[6] + dppt_segments(f).skip(7).flatten(),
        dppt_segments(f).flatten().skip(160) == dppt_segments(f)[7] + dppt_segments(f).skip(8).flatten(),
        dppt_segments(f).flatten().skip(164) == dppt_segments(f)[8] + dppt_segments(f).skip(9).flatten(),
        dppt_segments(f).flatten().skip(172) == dppt_segments(f)[9] + dppt_segments(f).skip(10).flatten(),
        dppt_segments(f).flatten().skip(180) == dppt_segments(f)[10] + dppt_segments(f).skip(11).flatten(),
        dppt_segments(f).flatten().skip(188) == dppt_segments(f)[11] + dppt_segments(f).skip(12).flatten(),
        dppt_segments(f).flatten().skip(196) == dppt_segments(f)[12] + dppt_segments(f).skip(13).flatten(),
        dppt_segments(f).flatten().skip(204) == dppt_segments(f)[13] + dppt_segments(f).skip(14).flatten(),
        dppt_segments(f).flatten().skip(208) == dppt_segments(f)[14] + dppt_segments(f).skip(15).flatten(),
        dppt_segments(f).flatten().skip(248) == dppt_segments(f)[15] + dppt_segments(f).skip(16).flatten(),
        dppt_segments(f).flatten().skip(292) == dppt_segments(f)[16] + dppt_segments(f).skip(17).flatten(),
        dppt_segments(f).flatten().skip(296) == dppt_segments(f)[17] + dppt_segments(f).skip(18).flatten(),
        dppt_segments(f).flatten().skip(336) == dppt_segments(f)[18] + dppt_segments(f).skip(19).flatten(),
        dppt_segments(f).flatten().skip(340) == dppt_segments(f)[19] + dppt_segments(f).skip(20).flatten(),
        dppt_segments(f).flatten().skip(380) == dppt_segments(f)[20] + dppt_segments(f).skip(21).flatten(),
        dppt_segments(f).flatten().skip(384) == dppt_segments(f)[21] + dppt_segments(f).skip(22).flatten(),
{
    let segs = dppt_segments(f);
    let e = segs.flatten();
    assert(segs.skip(0) =~= segs);
    assert(segs.skip(22) =~= Seq::<Seq<u8>>::empty());
    assert(segs.skip(22).flatten() =~= Seq::<u8>::empty());
    lemma_skip_flatten_step(segs, 0);
    lemma_skip_flatten_step(segs, 1);
    lemma_skip_flatten_step(segs, 2);
    lemma_skip_flatten_step(segs, 3);
    lemma_skip_flatten_step(segs, 4);
    lemma_skip_flatten_step(segs, 5);
    lemma_skip_flatten_step(segs, 6);
    lemma_skip_flatten_step(segs, 7);
    lemma_skip_flatten_step(segs, 8);
    lemma_skip_flatten_step(segs, 9);
    lemma_skip_flatten_step(segs, 10);
    lemma_skip_flatten_step(segs, 11);
    lemma_skip_flatten_step(segs, 12);
    lemma_skip_flatten_step(segs, 13);
    lemma_skip_flatten_step(segs, 14);
    lemma_skip_flatten_step(segs, 15);
    lemma_skip_flatten_step(segs, 16);
    lemma_skip_flatten_step(segs, 17);
    lemma_skip_flatten_step(segs, 18);
    lemma_skip_flatten_step(segs, 19);
    lemma_skip_flatten_step(segs, 20);
    lemma_skip_flatten_step(segs, 21);
    lemma_dppt_grass(f.grass_encounters@, Seq::empty());
    lemma_u32s(f.swarm_encounters@.take(2), Seq::empty());
    lemma_u32s(f.day_encounters@.take(2), Seq::empty());
    lemma_u32s(f.night_encounters@.take(2), Seq::empty());
    lemma_u32s(f.radar_encounters@, Seq::empty());
    lemma_u32s(f.form_encounter_rates@, Seq::empty());
    lemma_u32s(f.dual_slot_ruby@, Seq::empty());
    lemma_u32s(f.dual_slot_sapphire@, Seq::empty());
    lemma_u32s(f.dual_slot_emerald@, Seq::empty());
    lemma_u32s(f.dual_slot_firered@, Seq::empty());
    lemma_u32s(f.dual_slot_leafgreen@, Seq::empty());
    lemma_dppt_water(f.surf_encounters@, Seq::empty());
    lemma_dppt_water(f.old_rod_encounters@, Seq::empty());
    lemma_dppt_water(f.good_rod_encounters@, Seq::empty());
    lemma_dppt_water(f.super_rod_encounters@, Seq::empty());
    assert(segs[0].len() == 4);
    assert(segs[1].len() == 96);
    assert(segs[2].len() == 8);
    assert(segs[3].len() == 8);
    assert(segs[4].len() == 8);
    assert(segs[5].len() == 16);
    assert(segs[6].len() == 20);
    assert(segs[7].len() == 4);
    assert(segs[8].len() == 8);
    assert(segs[9].len() == 8);
    assert(segs[10].len() == 8);
    assert(segs[11].len() == 8);
    assert(segs[12].len() == 8);
    assert(segs[13].len() == 4);
    assert(segs[14].len() == 40);
    assert(segs[15].len() == 44);
    assert(segs[16].len() == 4);
    assert(segs[17].len() == 40);
    assert(segs[18].len() == 4);
    assert(segs[19].len() == 40);
    assert(segs[20].len() == 4);
    assert(segs[21].len() == 40);
    lemma_skip_cat(segs[0], segs.skip(1).flatten());
    lemma_skip_cat(segs[1], segs.skip(2).flatten());
    lemma_skip_cat(segs[2], segs.skip(3).flatten());
    lemma_skip_cat(segs[3], segs.skip(4).flatten());
    lemma_skip_cat(segs[4], segs.skip(5).flatten());
    lemma_skip_cat(segs[5], segs.skip(6).flatten());
    lemma_skip_cat(segs[6], segs.skip(7).flatten());
    lemma_skip_cat(segs[7], segs.skip(8).flatten());
    lemma_skip_cat(segs[8], segs.skip(9).flatten());
    lemma_skip_cat(segs[9], segs.skip(10).flatten());
    lemma_skip_cat(segs[10], segs.skip(11).flatten());
    lemma_skip_cat(segs[11], segs.skip(12).flatten());
    lemma_skip_cat(segs[12], segs.skip(13).flatten());
    lemma_skip_cat(segs[13], segs.skip(14).flatten());
    lemma_skip_cat(segs[14], segs.skip(15).flatten());
    lemma_skip_cat(segs[15], segs.skip(16).flatten());
    lemma_skip_cat(segs[16], segs.skip(17).flatten());
    lemma_skip_cat(segs[17], segs.skip(18).flatten());
    lemma_skip_cat(segs[18], segs.skip(19).flatten());
    lemma_skip_cat(segs[19], segs.skip(20).flatten());
    lemma_skip_cat(segs[20], segs.skip(21).flatten());
    lemma_skip_cat(segs[21], segs.skip(22).flatten());
    lemma_skip_skip(e, 0, 4);
    lemma_skip_skip(e, 4, 96);
    lemma_skip_skip(e, 100, 8);
    lemma_skip_skip(e, 108, 8);
    lemma_skip_skip(e, 116, 8);
    lemma_skip_skip(e, 124, 16);
    lemma_skip_skip(e, 140, 20);
    lemma_skip_skip(e, 160, 4);
    lemma_skip_skip(e, 164, 8);
    lemma_skip_skip(e, 172, 8);
    lemma_skip_skip(e, 180, 8);
    lemma_skip_skip(e, 188, 8);
    lemma_skip_skip(e, 196, 8);
    lemma_skip_skip(e, 204, 4);
    lemma_skip_skip(e, 208, 40);
    lemma_skip_skip(e, 248, 44);
    lemma_skip_skip(e, 292, 4);
    lemma_skip_skip(e, 296, 40);
    lemma_skip_skip(e, 336, 4);
    lemma_skip_skip(e, 340, 40);
    lemma_skip_skip(e, 380, 4);
}

#[verifier::rlimit(60)]
proof fn lemma_hgss_layout(f: BinaryEncounterFile)
    ensures
        hgss_segments(f).flatten().len() == 204,
        hgss_segments(f).flatten().skip(0) == hgss_segments(f)[0] + hgss_segments(f).skip(1).flatten(),
        hgss_segments(f).flatten().skip(8) == hgss_segments(f)[1] + hgss_segments(f).skip(2).flatten(),
        hgss_segments(f).flatten().skip(20) == hgss_segments(f)[2] + hgss_segments(f).skip(3).flatten(),
        hgss_segments(f).flatten().skip(44) == hgss_segments(f)[3] + hgss_segments(f).skip(4).flatten(),
        hgss_segments(f).flatten().skip(68) == hgss_segments(f)[4] + hgss_segments(f).skip(5).flatten(),
        hgss_segments(f).flatten().skip(92) == hgss_segments(f)[5] + hgss_segments(f).skip(6).flatten(),
        hgss_segments(f).flatten().skip(100) == hgss_segments(f)[6] + hgss_segments(f).skip(7).flatten(),
        hgss_segments(f).flatten().skip(108) == hgss_segments(f)[7] + hgss_segments(f).skip(8).flatten(),
        hgss_segments(f).flatten().skip(128) == hgss_segments(f)[8] + hgss_segments(f).skip(9).flatten(),
        hgss_segments(f).flatten().skip(136) == hgss_segments(f)[9] + hgss_segments(f).skip(10).flatten(),
        hgss_segments(f).flatten().skip(156) == hgss_segments(f)[10] + hgss_segments(f).skip(11).flatten(),
        hgss_segments(f).flatten().skip(176) == hgss_segments(f)[11] + hgss_segments(f).skip(12).flatten(),
        hgss_segments(f).flatten().skip(196) == hgss_segments(f)[12] + hgss_segments(f).skip(13).flatten(),
{
    let segs = hgss_segments(f);
    let e = segs.flatten();
    assert(segs.skip(0) =~= segs);
    assert(segs.skip(13) =~= Seq::<Seq<u8>>::empty());
    assert(segs.skip(13).flatten() =~= Seq::<u8>::empty());
    lemma_skip_flatten_step(segs, 0);
    lemma_skip_flatten_step(segs, 1);
    lemma_skip_flatten_step(segs, 2);
    lemma_skip_flatten_step(segs, 3);
    lemma_skip_flatten_step(segs, 4);
    lemma_skip_flatten_step(segs, 5);
    lemma_skip_flatten_step(segs, 6);
    lemma_skip_flatten_step(segs, 7);
    lemma_skip_flatten_step(segs, 8);
    lemma_skip_flatten_step(segs, 9);
    lemma_skip_flatten_step(segs, 10);
    lemma_skip_flatten_step(segs, 11);
    lemma_skip_flatten_step(segs, 12);
    lemma_levels(levels_of(f.morning_encounters@), Seq::empty());
    lemma_u16_lens(species_of(f.morning_encounters@));
    lemma_u16_lens(f.day_encounters@);
    lemma_u16_lens(f.night_encounters@);
    lemma_u16_lens(f.swarm_encounters@);
    lemma_u16_lens(f.music_encounters@);
    lemma_hgss_water_lens(f.surf_encounters@);
    lemma_hgss_water_lens(f.rock_smash_encounters@);
    lemma_hgss_water_lens(f.old_rod_encounters@);
    lemma_hgss_water_lens(f.good_rod_encounters@);
    lemma_hgss_water_lens(f.super_rod_encounters@);
    assert(segs[0].len() == 8);
    assert(segs[1].len() == 12);
    assert(segs[2].len() == 24);
    assert(segs[3].len() == 24);
    assert(segs[4].len() == 24);
    assert(segs[5].len() == 8);
    assert(segs[6].len() == 8);
    assert(segs[7].len() == 20);
    assert(segs[8].len() == 8);
    assert(segs[9].len() == 20);
    assert(segs[10].len() == 20);
    assert(segs[11].len() == 20);
    assert(segs[12].len() == 8);
    lemma_skip_cat(segs[0], segs.skip(1).flatten());
    lemma_skip_cat(segs[1], segs.skip(2).flatten());
    lemma_skip_cat(segs[2], segs.skip(3).flatten());
    lemma_skip_cat(segs[3], segs.skip(4).flatten());
    lemma_skip_cat(segs[4], segs.skip(5).flatten());
    lemma_skip_cat(segs[5], segs.skip(6).flatten());
    lemma_skip_cat(segs[6], segs.skip(7).flatten());
    lemma_skip_cat(segs[7], segs.skip(8).flatten());
    lemma_skip_cat(segs[8], segs.skip(9).flatten());
    lemma_skip_cat(segs[9], segs.skip(10).flatten());
    lemma_skip_cat(segs[10], segs.skip(11).flatten());
    lemma_skip_cat(segs[11], segs.skip(12).flatten());
    lemma_skip_cat(segs[12], segs.skip(13).flatten());
    lemma_skip_skip(e, 0, 8);
    lemma_skip_skip(e, 8, 12);
    lemma_skip_skip(e, 20, 24);
    lemma_skip_skip(e, 44, 24);
    lemma_skip_skip(e, 68, 24);
    lemma_skip_skip(e, 92, 8);
    lemma_skip_skip(e, 100, 8);
    lemma_skip_skip(e, 108, 20);
    lemma_skip_skip(e, 128, 8);
    lemma_skip_skip(e, 136, 20);
    lemma_skip_skip(e, 156, 20);
    lemma_skip_skip(e, 176, 20);
}

// ----- reading -----

/// All `n` words are zero.
pub open spec fn all_zero(s: Seq<u32>) -> bool {
    forall|i: int| 0 <= i < s.len() ==> s[i] == 0
}

/// A slot list of default slots.
pub open spec fn all_default_water(s: Seq<WaterEncounterEntry>) -> bool {
    forall|i: int| 0 <= i < s.len() ==> s[i] == (WaterEncounterEntry { min_level: 0, max_level: 0, species: 0 })
}

pub open spec fn all_default_land(s: Seq<EncounterEntry>) -> bool {
    forall|i: int| 0 <= i < s.len() ==> s[i] == (EncounterEntry { level: 0, species: 0 })
}

/// `f` is the table that the bytes `b` hold in the Diamond/Pearl/Platinum
/// layout; the fields of the other layout are zero.
pub open spec fn dppt_decoded(f: BinaryEncounterFile, b: Seq<u8>) -> bool {
    &&& f.walking_rate == u32_at(b, 0)
    &&& f.grass_encounters@ == dppt_grass_list(b.skip(4), 12)
    &&& f.swarm_encounters@.take(2) == u32_list(b.skip(100), 2)
    &&& all_zero(f.swarm_encounters@.skip(2))
    &&& f.day_encounters@.take(2) == u32_list(b.skip(108), 2)
    &&& all_zero(f.day_encounters@.skip(2))
    &&& f.night_encounters@.take(2) == u32_list(b.skip(116), 2)
    &&& all_zero(f.night_encounters@.skip(2))
    &&& f.radar_encounters@ == u32_list(b.skip(124), 4)
    &&& f.form_encounter_rates@ == u32_list(b.skip(140), 5)
    &&& f.unown_table_id == u32_at(b, 160)
    &&& f.dual_slot_ruby@ == u32_list(b.skip(164), 2)
    &&& f.dual_slot_sapphire@ == u32_list(b.skip(172), 2)
    &&& f.dual_slot_emerald@ == u32_list(b.skip(180), 2)
    &&& f.dual_slot_firered@ == u32_list(b.skip(188), 2)
    &&& f.dual_slot_leafgreen@ == u32_list(b.skip(196), 2)
    &&& f.surf_rate == u32_at(b, 204)
    &&& f.surf_encounters@ == dppt_water_list(b.skip(208), 5)
    &&& f.old_rod_rate == u32_at(b, 292)
    &&& f.old_rod_encounters@ == dppt_water_list(b.skip(296), 5)
    &&& f.good_rod_rate == u32_at(b, 336)
    &&& f.good_rod_encounters@ == dppt_water_list(b.skip(340), 5)
    &&& f.super_rod_rate == u32_at(b, 380)
    &&& f.super_rod_encounters@ == dppt_water_list(b.skip(384), 5)
    &&& all_zero(f.music_encounters@)
    &&& f.rock_smash_rate == 0
    &&& all_default_water(f.rock_smash_encounters@)
    &&& all_default_land(f.morning_encounters@)
}

/// The morning slots of a HeartGold/SoulSilver table: levels from byte 8,
/// `u16` species from byte 20.
pub open spec fn hgss_morning(b: Seq<u8>) -> Seq<EncounterEntry> {
    Seq::new(12, |i: int| EncounterEntry { level: b[8 + i], species: u16_at(b, 20 + 2 * i) as u32 })
}

/// `f` is the table that the bytes `b` hold in the HeartGold/SoulSilver
/// layout; the land slots are the morning slots, and the fields of the
/// other layout are zero.
pub open spec fn hgss_decoded(f: BinaryEncounterFile, b: Seq<u8>) -> bool {
    &&& f.walking_rate == b[0] as u32
    &&& f.surf_rate == b[1] as u32
    &&& f.rock_smash_rate == b[2] as u32
    &&& f.old_rod_rate == b[3] as u32
    &&& f.good_rod_rate == b[4] as u32
    &&& f.super_rod_rate == b[5] as u32
    &&& f.morning_encounters@ == hgss_morning(b)
    &&& f.grass_encounters@ == hgss_morning(b)
    &&& f.day_encounters@ == u16_list(b.skip(44), 12)
    &&& f.night_encounters@ == u16_list(b.skip(68), 12)
    &&& f.swarm_encounters@ == u16_list(b.skip(92), 4)
    &&& f.music_encounters@ == u16_list(b.skip(100), 4)
    &&& f.surf_encounters@ == hgss_water_list(b.skip(108), 5)
    &&& f.rock_smash_encounters@ == hgss_water_list(b.skip(128), 2)
    &&& f.old_rod_encounters@ == hgss_water_list(b.skip(136), 5)
    &&& f.good_rod_encounters@ == hgss_water_list(b.skip(156), 5)
    &&& f.super_rod_encounters@ == hgss_water_list(b.skip(176), 5)
    &&& all_zero(f.radar_encounters@)
    &&& all_zero(f.form_encounter_rates@)
    &&& f.unown_table_id == 0
    &&& all_zero(f.dual_slot_ruby@)
    &&& all_zero(f.dual_slot_sapphire@)
    &&& all_zero(f.dual_slot_emerald@)
    &&& all_zero(f.dual_slot_firered@)
    &&& all_zero(f.dual_slot_leafgreen@)
}

fn fill_dppt_grass(data: &[u8], off: usize, a: &mut [EncounterEntry; 12])
    requires
        off + 96 <= data@.len(),
    ensures
        final(a)@ == dppt_grass_list(data@.skip(off as int), 12),
{
    let len = data.len();
    let mut i: usize = 0;
    while i < 12
        invariant
            i <= 12,
            len == data@.len(),
            off + 96 <= data@.len(),
            a@.len() == 12,
            forall|k: int| 0 <= k < i ==> #[trigger] a@[k] == dppt_grass_list(data@.skip(off as int), 12)[k],
        decreases 12 - i,
    {
        let p = off + 8 * i;
        let e = EncounterEntry { level: data[p], species: read_u32(data, p + 4) };
        proof {
            lemma_skip_skip(data@, off as int, 8 * i);
            lemma_u32_at_skip(data@, p as int, 4);
        }
        a.set(i, e);
        i = i + 1;
    }
    assert(a@ =~= dppt_grass_list(data@.skip(off as int), 12));
}

fn fill_morning(data: &[u8], a: &mut [EncounterEntry; 12])
    requires
        44 <= data@.len(),
    ensures
        final(a)@ == hgss_morning(data@),
{
    let mut i: usize = 0;
    while i < 12
        invariant
            i <= 12,
            44 <= data@.len(),
            a@.len() == 12,
            forall|k: int| 0 <= k < i ==> #[trigger] a@[k] == hgss_morning(data@)[k],
        decreases 12 - i,
    {
        let e = EncounterEntry { level: data[8 + i], species: read_u16(data, 20 + 2 * i) as u32 };
        a.set(i, e);
        i = i + 1;
    }
    assert(a@ =~= hgss_morning(data@));
}

fn read_dppt(data: &[u8]) -> (f: BinaryEncounterFile)
    requires
        data@.len() >= DPPT_ENCOUNTER_FILE_SIZE,
    ensures
        dppt_decoded(f, data@),
{
    let zero_land = EncounterEntry { level: 0, species: 0 };
    let zero_water = WaterEncounterEntry { min_level: 0, max_level: 0, species: 0 };
    let mut grass = [zero_land; 12];
    fill_dppt_grass(data, 4, &mut grass);
    let mut swarm_pair = [0u32; 2];
    fill_u32s(data, 100, &mut swarm_pair);
    let mut day_pair = [0u32; 2];
    fill_u32s(data, 108, &mut day_pair);
    let mut night_pair = [0u32; 2];
    fill_u32s(data, 116, &mut night_pair);
    let mut radar = [0u32; 4];
    fill_u32s(data, 124, &mut radar);
    let mut form = [0u32; 5];
    fill_u32s(data, 140, &mut form);
    let mut ruby = [0u32; 2];
    fill_u32s(data, 164, &mut ruby);
    let mut sapphire = [0u32; 2];
    fill_u32s(data, 172, &mut sapphire);
    let mut emerald = [0u32; 2];
    fill_u32s(data, 180, &mut emerald);
    let mut firered = [0u32; 2];
    fill_u32s(data, 188, &mut firered);
    let mut leafgreen = [0u32; 2];
    fill_u32s(data, 196, &mut leafgreen);
    let mut surf = [zero_water; 5];
    fill_dppt_water(data, 208, &mut surf);
    let mut old_rod = [zero_water; 5];
    fill_dppt_water(data, 296, &mut old_rod);
    let mut good_rod = [zero_water; 5];
    fill_dppt_water(data, 340, &mut good_rod);
    let mut super_rod = [zero_water; 5];
    fill_dppt_water(data, 384, &mut super_rod);
    let f = BinaryEncounterFile {
        walking_rate: read_u32(data, 0),
        grass_encounters: grass,
        swarm_encounters: [swarm_pair[0], swarm_pair[1], 0, 0],
        day_encounters: [day_pair[0], day_pair[1], 0, 0, 0, 0, 0, 0, 0, 0, 0, 0],
        night_encounters: [night_pair[0], night_pair[1], 0, 0, 0, 0, 0, 0, 0, 0, 0, 0],
        radar_encounters: radar,
        music_encounters: [0u32; 4],
        form_encounter_rates: form,
        unown_table_id: read_u32(data, 160),
        dual_slot_ruby: ruby,
        dual_slot_sapphire: sapphire,
        dual_slot_emerald: emerald,
        dual_slot_firered: firered,
        dual_slot_leafgreen: leafgreen,
        surf_rate: read_u32(data, 204),
        surf_encounters: surf,
        old_rod_rate: read_u32(data, 292),
        old_rod_encounters: old_rod,
        good_rod_rate: read_u32(data, 336),
        good_rod_encounters: good_rod,
        super_rod_rate: read_u32(data, 380),
        super_rod_encounters: super_rod,
        rock_smash_rate: 0,
        rock_smash_encounters: [zero_water; 2],
        morning_encounters: [zero_land; 12],
    };
    assert(f.swarm_encounters@.take(2) =~= swarm_pair@);
    assert(f.day_encounters@.take(2) =~= day_pair@);
    assert(f.night_encounters@.take(2) =~= night_pair@);
    f
}

fn read_hgss(data: &[u8]) -> (f: BinaryEncounterFile)
    requires
        data@.len() >= HGSS_ENCOUNTER_FILE_SIZE,
    ensures
        hgss_decoded(f, data@),
{
    let zero_land = EncounterEntry { level: 0, species: 0 };
    let zero_water = WaterEncounterEntry { min_level: 0, max_level: 0, species: 0 };
    let mut morning = [zero_land; 12];
    fill_morning(data, &mut morning);
    let mut day = [0u32; 12];
    fill_u16s(data, 44, &mut day);
    let mut night = [0u32; 12];
    fill_u16s(data, 68, &mut night);
    let mut swarm = [0u32; 4];
    fill_u16s(data, 92, &mut swarm);
    let mut music = [0u32; 4];
    fill_u16s(data, 100, &mut music);
    let mut surf = [zero_water; 5];
    fill_hgss_water(data, 108, &mut surf);
    let mut rock = [zero_water; 2];
    fill_hgss_water(data, 128, &mut rock);
    let mut old_rod = [zero_water; 5];
    fill_hgss_water(data, 136, &mut old_rod);
    let mut good_rod = [zero_water; 5];
    fill_hgss_water(data, 156, &mut good_rod);
    let mut super_rod = [zero_water; 5];
    fill_hgss_water(data, 176, &mut super_rod);
    BinaryEncounterFile {
        walking_rate: data[0] as u32,
        grass_encounters: morning,
        swarm_encounters: swarm,
        day_encounters: day,
        night_encounters: night,
        radar_encounters: [0u32; 4],
        music_encounters: music,
        form_encounter_rates: [0u32; 5],
        unown_table_id: 0,
        dual_slot_ruby: [0u32; 2],
        dual_slot_sapphire: [0u32; 2],
        dual_slot_emerald: [0u32; 2],
        dual_slot_firered: [0u32; 2],
        dual_slot_leafgreen: [0u32; 2],
        surf_rate: data[1] as u32,
        surf_encounters: surf,
        old_rod_rate: data[3] as u32,
        old_rod_encounters: old_rod,
        good_rod_rate: data[4] as u32,
        good_rod_encounters: good_rod,
        super_rod_rate: data[5] as u32,
        super_rod_encounters: super_rod,
        rock_smash_rate: data[2] as u32,
        rock_smash_encounters: rock,
        morning_encounters: morning,
    }
}

// ----- validation -----

/// The index of the first species above `max`, or the length when none is.
pub open spec fn first_over(s: Seq<u32>, max: u32) -> nat
    decreases s.len(),
{
    if s.len() == 0 {
        0
    } else if s[0] > max {
        0
    } else {
        1 + first_over(s.drop_first(), max)
    }
}

proof fn lemma_first_over(s: Seq<u32>, max: u32, i: nat)
    requires
        i <= s.len(),
        forall|k: int| 0 <= k < i ==> s[k] <= max,
        i == s.len() || s[i as int] > max,
    ensures
        first_over(s, max) == i,
    decreases i,
{
    if i > 0 {
        let t = s.drop_first();
        assert forall|k: int| 0 <= k < i - 1 implies t[k] <= max by {
            assert(t[k] == s[k + 1]);
        }
        if i < s.len() {
            assert(t[i - 1] == s[i as int]);
        }
        lemma_first_over(t, max, (i - 1) as nat);
    }
}

/// The message for a rate that does not fit a byte.
pub open spec fn rate_msg(name: Seq<char>, v: u32) -> Seq<char> {
    "Encounter field '"@ + name + "' value "@ + dec(v as nat) + " exceeds u8 max 255"@
}

/// The message for a species that does not fit a `u16`.
pub open spec fn species_msg(name: Seq<char>, index: nat, v: u32) -> Seq<char> {
    "Encounter field '"@ + name + "' index "@ + dec(index) + " species "@ + dec(v as nat)
        + " exceeds u16 max 65535"@
}

pub open spec fn rate_problem(name: Seq<char>, v: u32) -> Option<Seq<char>> {
    if v > 255 {
        Some(rate_msg(name, v))
    } else {
        None
    }
}

pub open spec fn species_problem(name: Seq<char>, s: Seq<u32>) -> Option<Seq<char>> {
    let i = first_over(s, 0xFFFF);
    if i < s.len() {
        Some(species_msg(name, i, s[i as int]))
    } else {
        None
    }
}

/// The first problem of a list, if any.
pub open spec fn first_problem(ps: Seq<Option<Seq<char>>>) -> Option<Seq<char>>
    decreases ps.len(),
{
    if ps.len() == 0 {
        None
    } else if ps[0] is Some {
        ps[0]
    } else {
        first_problem(ps.drop_first())
    }
}

proof fn lemma_first_problem(ps: Seq<Option<Seq<char>>>, k: nat)
    requires
        k <= ps.len(),
        forall|i: int| 0 <= i < k ==> ps[i] is None,
        k == ps.len() || ps[k as int] is Some,
    ensures
        first_problem(ps) == (if k < ps.len() { ps[k as int] } else { None }),
    decreases k,
{
    if k > 0 {
        let t = ps.drop_first();
        assert forall|i: int| 0 <= i < k - 1 implies t[i] is None by {
            assert(t[i] == ps[i + 1]);
        }
        if k < ps.len() {
            assert(t[k - 1] == ps[k as int]);
        }
        lemma_first_problem(t, (k - 1) as nat);
    }
}

/// The checks of the HeartGold/SoulSilver layout, in order: the six rates
/// must fit a byte, then every species a `u16`.
pub open spec fn hgss_checks(f: BinaryEncounterFile) -> Seq<Option<Seq<char>>> {
    seq![
        rate_problem("walking_rate"@, f.walking_rate),
        rate_problem("surf_rate"@, f.surf_rate),
        rate_problem("rock_smash_rate"@, f.rock_smash_rate),
        rate_problem("old_rod_rate"@, f.old_rod_rate),
        rate_problem("good_rod_rate"@, f.good_rod_rate),
        rate_problem("super_rod_rate"@, f.super_rod_rate),
        species_problem("morning_encounters"@, species_of(f.morning_encounters@)),
        species_problem("day_encounters"@, f.day_encounters@),
        species_problem("night_encounters"@, f.night_encounters@),
        species_problem("swarm_encounters"@, f.swarm_encounters@),
        species_problem("music_encounters"@, f.music_encounters@),
        species_problem("surf_encounters"@, water_species_of(f.surf_encounters@)),
        species_problem("rock_smash_encounters"@, water_species_of(f.rock_smash_encounters@)),
        species_problem("old_rod_encounters"@, water_species_of(f.old_rod_encounters@)),
        species_problem("good_rod_encounters"@, water_species_of(f.good_rod_encounters@)),
        species_problem("super_rod_encounters"@, water_species_of(f.super_rod_encounters@)),
    ]
}

/// The first field of `f` that the HeartGold/SoulSilver layout cannot hold.
pub open spec fn hgss_problem(f: BinaryEncounterFile) -> Option<Seq<char>> {
    first_problem(hgss_checks(f))
}

/// The problem, as a `String`, or `None`.
fn check_rate(name: &str, v: u32) -> (r: Option<String>)
    ensures
        match r {
            Some(m) => rate_problem(name@, v) == Some(m@),
            None => rate_problem(name@, v) is None,
        },
{
    if v > 255 {
        let mut m = String::new();
        push_str(&mut m, "Encounter field '");
        push_str(&mut m, name);
        push_str(&mut m, "' value ");
        push_dec(&mut m, v as u64);
        push_str(&mut m, " exceeds u8 max 255");
        assert(m@ =~= rate_msg(name@, v));
        Some(m)
    } else {
        None
    }
}

fn species_message(name: &str, i: usize, v: u32) -> (m: String)
    ensures
        m@ == species_msg(name@, i as nat, v),
{
    let mut m = String::new();
    push_str(&mut m, "Encounter field '");
    push_str(&mut m, name);
    push_str(&mut m, "' index ");
    push_dec(&mut m, i as u64);
    push_str(&mut m, " species ");
    push_dec(&mut m, v as u64);
    push_str(&mut m, " exceeds u16 max 65535");
    assert(m@ =~= species_msg(name@, i as nat, v));
    m
}

fn check_species<const N: usize>(name: &str, s: &[u32; N]) -> (r: Option<String>)
    ensures
        match r {
            Some(m) => species_problem(name@, s@) == Some(m@),
            None => species_problem(name@, s@) is None,
        },
{
    let mut i: usize = 0;
    while i < N
        invariant
            i <= N,
            s@.len() == N,
            forall|k: int| 0 <= k < i ==> s@[k] <= 0xFFFF,
        decreases N - i,
    {
        if s[i] > 0xFFFF {
            proof {
                lemma_first_over(s@, 0xFFFF, i as nat);
            }
            return Some(species_message(name, i, s[i]));
        }
        i = i + 1;
    }
    proof {
        lemma_first_over(s@, 0xFFFF, N as nat);
    }
    None
}

fn check_land_species<const N: usize>(name: &str, s: &[EncounterEntry; N]) -> (r: Option<String>)
    ensures
        match r {
            Some(m) => species_problem(name@, species_of(s@)) == Some(m@),
            None => species_problem(name@, species_of(s@)) is None,
        },
{
    let ghost sp = species_of(s@);
    let mut i: usize = 0;
    while i < N
        invariant
            i <= N,
            s@.len() == N,
            sp == species_of(s@),
            forall|k: int| 0 <= k < i ==> sp[k] <= 0xFFFF,
        decreases N - i,
    {
        if s[i].species > 0xFFFF {
            proof {
                lemma_first_over(sp, 0xFFFF, i as nat);
            }
            return Some(species_message(name, i, s[i].species));
        }
        i = i + 1;
    }
    proof {
        lemma_first_over(sp, 0xFFFF, N as nat);
    }
    None
}

fn check_water_species<const N: usize>(name: &str, s: &[WaterEncounterEntry; N]) -> (r: Option<String>)
    ensures
        match r {
            Some(m) => species_problem(name@, water_species_of(s@)) == Some(m@),
            None => species_problem(name@, water_species_of(s@)) is None,
        },
{
    let ghost sp = water_species_of(s@);
    let mut i: usize = 0;
    while i < N
        invariant
            i <= N,
            s@.len() == N,
            sp == water_species_of(s@),
            forall|k: int| 0 <= k < i ==> sp[k] <= 0xFFFF,
        decreases N - i,
    {
        if s[i].species > 0xFFFF {
            proof {
                lemma_first_over(sp, 0xFFFF, i as nat);
            }
            return Some(species_message(name, i, s[i].species));
        }
        i = i + 1;
    }
    proof {
        lemma_first_over(sp, 0xFFFF, N as nat);
    }
    None
}

// ----- writing -----

proof fn lemma_append_segment(start: Seq<u8>, segs: Seq<Seq<u8>>, j: int, before: Seq<u8>, after: Seq<u8>)
    requires
        0 <= j < segs.len(),
        before == start + segs.take(j).flatten_alt(),
        after == before + segs[j],
    ensures
        after == start + segs.take(j + 1).flatten_alt(),
{
    lemma_take_flatten_alt_step(segs, j);
    assert(after =~= start + segs.take(j + 1).flatten_alt());
}

proof fn lemma_all_segments(start: Seq<u8>, segs: Seq<Seq<u8>>, out: Seq<u8>)
    requires
        out == start + segs.take(segs.len() as int).flatten_alt(),
    ensures
        out == start + segs.flatten(),
{
    assert(segs.take(segs.len() as int) =~= segs);
    segs.lemma_flatten_and_flatten_alt_are_equivalent();
}

impl BinaryEncounterFile {
    /// The first field this table cannot hold in the HeartGold/SoulSilver
    /// layout, as the message of the error.
    fn hgss_validate(&self) -> (r: Option<String>)
        ensures
            match r {
                Some(m) => hgss_problem(*self) == Some(m@),
                None => hgss_problem(*self) is None,
            },
    {
        let ghost ps = hgss_checks(*self);
        let c0 = check_rate("walking_rate", self.walking_rate);
        if let Some(m) = c0 {
            proof {
                lemma_first_problem(ps, 0);
            }
            return Some(m);
        }
        let c1 = check_rate("surf_rate", self.surf_rate);
        if let Some(m) = c1 {
            proof {
                lemma_first_problem(ps, 1);
            }
            return Some(m);
        }
        let c2 = check_rate("rock_smash_rate", self.rock_smash_rate);
        if let Some(m) = c2 {
            proof {
                lemma_first_problem(ps, 2);
            }
            return Some(m);
        }
        let c3 = check_rate("old_rod_rate", self.old_rod_rate);
        if let Some(m) = c3 {
            proof {
                lemma_first_problem(ps, 3);
            }
            return Some(m);
        }
        let c4 = check_rate("good_rod_rate", self.good_rod_rate);
        if let Some(m) = c4 {
            proof {
                lemma_first_problem(ps, 4);
            }
            return Some(m);
        }
        let c5 = check_rate("super_rod_rate", self.super_rod_rate);
        if let Some(m) = c5 {
            proof {
                lemma_first_problem(ps, 5);
            }
            return Some(m);
        }
        let c6 = check_land_species("morning_encounters", &self.morning_encounters);
        if let Some(m) = c6 {
            proof {
                lemma_first_problem(ps, 6);
            }
            return Some(m);
        }
        let c7 = check_species("day_encounters", &self.day_encounters);
        if let Some(m) = c7 {
            proof {
                lemma_first_problem(ps, 7);
            }
            return Some(m);
        }
        let c8 = check_species("night_encounters", &self.night_encounters);
        if let Some(m) = c8 {
            proof {
                lemma_first_problem(ps, 8);
            }
            return Some(m);
        }
        let c9 = check_species("swarm_encounters", &self.swarm_encounters);
        if let Some(m) = c9 {
            proof {
                lemma_first_problem(ps, 9);
            }
            return Some(m);
        }
        let c10 = check_species("music_encounters", &self.music_encounters);
        if let Some(m) = c10 {
            proof {
                lemma_first_problem(ps, 10);
            }
            return Some(m);
        }
        let c11 = check_water_species("surf_encounters", &self.surf_encounters);
        if let Some(m) = c11 {
            proof {
                lemma_first_problem(ps, 11);
            }
            return Some(m);
        }
        let c12 = check_water_species("rock_smash_encounters", &self.rock_smash_encounters);
        if let Some(m) = c12 {
            proof {
                lemma_first_problem(ps, 12);
            }
            return Some(m);
        }
        let c13 = check_water_species("old_rod_encounters", &self.old_rod_encounters);
        if let Some(m) = c13 {
            proof {
                lemma_first_problem(ps, 13);
            }
            return Some(m);
        }
        let c14 = check_water_species("good_rod_encounters", &self.good_rod_encounters);
        if let Some(m) = c14 {
            proof {
                lemma_first_problem(ps, 14);
            }
            return Some(m);
        }
        let c15 = check_water_species("super_rod_encounters", &self.super_rod_encounters);
        if let Some(m) = c15 {
            proof {
                lemma_first_problem(ps, 15);
            }
            return Some(m);
        }
        proof {
            lemma_first_problem(ps, 16);
        }
        None
    }

    /// Append the 424 bytes of the Diamond/Pearl/Platinum layout.
    fn write_dppt(&self, out: &mut Vec<u8>)
        ensures
            final(out)@ == old(out)@ + dppt_segments(*self).flatten(),
    {
        let ghost start = out@;
        let ghost segs = dppt_segments(*self);
        assert(segs.take(0) =~= Seq::<Seq<u8>>::empty());
        assert(start =~= start + segs.take(0).flatten_alt());
        let ghost before = out@;
        push_u32(out, self.walking_rate);
        proof {
            lemma_append_segment(start, segs, 0, before, out@);
        }
        let ghost before = out@;
        push_dppt_grass(out, &self.grass_encounters);
        proof {
            lemma_append_segment(start, segs, 1, before, out@);
        }
        let ghost before = out@;
        push_u32s(out, &self.swarm_encounters, 2);
        proof {
            lemma_append_segment(start, segs, 2, before, out@);
        }
        let ghost before = out@;
        push_u32s(out, &self.day_encounters, 2);
        proof {
            lemma_append_segment(start, segs, 3, before, out@);
        }
        let ghost before = out@;
        push_u32s(out, &self.night_encounters, 2);
        proof {
            lemma_append_segment(start, segs, 4, before, out@);
        }
        let ghost before = out@;
        push_u32s(out, &self.radar_encounters, 4);
        assert(self.radar_encounters@.take(4) =~= self.radar_encounters@);
        proof {
            lemma_append_segment(start, segs, 5, before, out@);
        }
        let ghost before = out@;
        push_u32s(out, &self.form_encounter_rates, 5);
        assert(self.form_encounter_rates@.take(5) =~= self.form_encounter_rates@);
        proof {
            lemma_append_segment(start, segs, 6, before, out@);
        }
        let ghost before = out@;
        push_u32(out, self.unown_table_id);
        proof {
            lemma_append_segment(start, segs, 7, before, out@);
        }
        let ghost before = out@;
        push_u32s(out, &self.dual_slot_ruby, 2);
        assert(self.dual_slot_ruby@.take(2) =~= self.dual_slot_ruby@);
        proof {
            lemma_append_segment(start, segs, 8, before, out@);
        }
        let ghost before = out@;
        push_u32s(out, &self.dual_slot_sapphire, 2);
        assert(self.dual_slot_sapphire@.take(2) =~= self.dual_slot_sapphire@);
        proof {
            lemma_append_segment(start, segs, 9, before, out@);
        }
        let ghost before = out@;
        push_u32s(out, &self.dual_slot_emerald, 2);
        assert(self.dual_slot_emerald@.take(2) =~= self.dual_slot_emerald@);
        proof {
            lemma_append_segment(start, segs, 10, before, out@);
        }
        let ghost before = out@;
        push_u32s(out, &self.dual_slot_firered, 2);
        assert(self.dual_slot_firered@.take(2) =~= self.dual_slot_firered@);
        proof {
            lemma_append_segment(start, segs, 11, before, out@);
        }
        let ghost before = out@;
        push_u32s(out, &self.dual_slot_leafgreen, 2);
        assert(self.dual_slot_leafgreen@.take(2) =~= self.dual_slot_leafgreen@);
        proof {
            lemma_append_segment(start, segs, 12, before, out@);
        }
        let ghost before = out@;
        push_u32(out, self.surf_rate);
        proof {
            lemma_append_segment(start, segs, 13, before, out@);
        }
        let ghost before = out@;
        push_dppt_water(out, &self.surf_encounters);
        proof {
            lemma_append_segment(start, segs, 14, before, out@);
        }
        let ghost before = out@;
        push_zeros(out, 44);
        assert(Seq::new(44 as nat, |i: int| 0u8) =~= zeros(44));
        proof {
            lemma_append_segment(start, segs, 15, before, out@);
        }
        let ghost before = out@;
        push_u32(out, self.old_rod_rate);
        proof {
            lemma_append_segment(start, segs, 16, before, out@);
        }
        let ghost before = out@;
        push_dppt_water(out, &self.old_rod_encounters);
        proof {
            lemma_append_segment(start, segs, 17, before, out@);
        }
        let ghost before = out@;
        push_u32(out, self.good_rod_rate);
        proof {
            lemma_append_segment(start, segs, 18, before, out@);
        }
        let ghost before = out@;
        push_dppt_water(out, &self.good_rod_encounters);
        proof {
            lemma_append_segment(start, segs, 19, before, out@);
        }
        let ghost before = out@;
        push_u32(out, self.super_rod_rate);
        proof {
            lemma_append_segment(start, segs, 20, before, out@);
        }
        let ghost before = out@;
        push_dppt_water(out, &self.super_rod_encounters);
        proof {
            lemma_append_segment(start, segs, 21, before, out@);
        }
        proof {
            lemma_all_segments(start, segs, out@);
        }
    }

    /// Append the bytes of the HeartGold/SoulSilver layout.
    fn write_hgss(&self, out: &mut Vec<u8>)
        ensures
            final(out)@ == old(out)@ + hgss_segments(*self).flatten(),
    {
        let ghost start = out@;
        let ghost segs = hgss_segments(*self);
        assert(segs.take(0) =~= Seq::<Seq<u8>>::empty());
        assert(start =~= start + segs.take(0).flatten_alt());
        let ghost before = out@;
        out.push(self.walking_rate as u8);
        out.push(self.surf_rate as u8);
        out.push(self.rock_smash_rate as u8);
        out.push(self.old_rod_rate as u8);
        out.push(self.good_rod_rate as u8);
        out.push(self.super_rod_rate as u8);
        out.push(0u8);
        out.push(0u8);
        assert(out@ =~= before + hgss_rates_bytes(*self));
        proof {
            lemma_append_segment(start, segs, 0, before, out@);
        }
        let ghost before = out@;
        push_levels(out, &self.morning_encounters);
        proof {
            lemma_append_segment(start, segs, 1, before, out@);
        }
        let ghost before = out@;
        push_entry_species(out, &self.morning_encounters);
        proof {
            lemma_append_segment(start, segs, 2, before, out@);
        }
        let ghost before = out@;
        push_u16s(out, &self.day_encounters);
        proof {
            lemma_append_segment(start, segs, 3, before, out@);
        }
        let ghost before = out@;
        push_u16s(out, &self.night_encounters);
        proof {
            lemma_append_segment(start, segs, 4, before, out@);
        }
        let ghost before = out@;
        push_u16s(out, &self.swarm_encounters);
        proof {
            lemma_append_segment(start, segs, 5, before, out@);
        }
        let ghost before = out@;
        push_u16s(out, &self.music_encounters);
        proof {
            lemma_append_segment(start, segs, 6, before, out@);
        }
        let ghost before = out@;
        push_hgss_water(out, &self.surf_encounters);
        proof {
            lemma_append_segment(start, segs, 7, before, out@);
        }
        let ghost before = out@;
        push_hgss_water(out, &self.rock_smash_encounters);
        proof {
            lemma_append_segment(start, segs, 8, before, out@);
        }
        let ghost before = out@;
        push_hgss_water(out, &self.old_rod_encounters);
        proof {
            lemma_append_segment(start, segs, 9, before, out@);
        }
        let ghost before = out@;
        push_hgss_water(out, &self.good_rod_encounters);
        proof {
            lemma_append_segment(start, segs, 10, before, out@);
        }
        let ghost before = out@;
        push_hgss_water(out, &self.super_rod_encounters);
        proof {
            lemma_append_segment(start, segs, 11, before, out@);
        }
        let ghost before = out@;
        push_u16s(out, &self.swarm_encounters);
        proof {
            lemma_append_segment(start, segs, 12, before, out@);
        }
        proof {
            lemma_all_segments(start, segs, out@);
        }
    }

    /// Read a table from the start of `data` in the layout of `family`.
    pub fn from_binary(data: &[u8], family: GameFamily) -> (r: Result<Self, UxieError>)
        ensures
            match family {
                GameFamily::HGSS => if data@.len() >= HGSS_ENCOUNTER_FILE_SIZE {
                    r matches Ok(f) && hgss_decoded(f, data@)
                } else {
                    r matches Err(e) && e.spec_kind() == ErrorKind::UnexpectedEof
                },
                _ => if data@.len() >= DPPT_ENCOUNTER_FILE_SIZE {
                    r matches Ok(f) && dppt_decoded(f, data@)
                } else {
                    r matches Err(e) && e.spec_kind() == ErrorKind::UnexpectedEof
                },
            },
    {
        match family {
            GameFamily::HGSS => {
                if data.len() < HGSS_ENCOUNTER_FILE_SIZE {
                    return Err(UxieError::unexpected_eof());
                }
                Ok(read_hgss(data))
            },
            _ => {
                if data.len() < DPPT_ENCOUNTER_FILE_SIZE {
                    return Err(UxieError::unexpected_eof());
                }
                Ok(read_dppt(data))
            },
        }
    }

    /// Append this table in the layout of `family`. The HeartGold/SoulSilver
    /// layout first checks that every rate fits a byte and every species a
    /// `u16`; on the first field that does not, nothing is written and the
    /// error names it.
    pub fn to_binary(&self, out: &mut Vec<u8>, family: GameFamily) -> (r: Result<(), UxieError>)
        ensures
            match family {
                GameFamily::HGSS => match hgss_problem(*self) {
                    Some(m) => final(out)@ == old(out)@ && (r matches Err(e) && e matches UxieError::Io {
                        kind,
                        message,
                    } && kind == ErrorKind::InvalidData && message@ == m),
                    None => r is Ok && final(out)@ == old(out)@ + hgss_encode(*self),
                },
                _ => r is Ok && final(out)@ == old(out)@ + dppt_encode(*self),
            },
    {
        match family {
            GameFamily::HGSS => {
                match self.hgss_validate() {
                    Some(m) => Err(UxieError::invalid_data(m)),
                    None => {
                        self.write_hgss(out);
                        Ok(())
                    },
                }
            },
            _ => {
                self.write_dppt(out);
                Ok(())
            },
        }
    }
}

proof fn lemma_no_problem(ps: Seq<Option<Seq<char>>>, i: int)
    requires
        first_problem(ps) is None,
        0 <= i < ps.len(),
    ensures
        ps[i] is None,
    decreases ps.len(),
{
    if i > 0 {
        let t = ps.drop_first();
        assert(t[i - 1] == ps[i]);
        lemma_no_problem(t, i - 1);
    }
}

proof fn lemma_none_over(s: Seq<u32>, max: u32)
    requires
        first_over(s, max) >= s.len(),
    ensures
        forall|k: int| 0 <= k < s.len() ==> s[k] <= max,
    decreases s.len(),
{
    if s.len() > 0 {
        let t = s.drop_first();
        lemma_none_over(t, max);
        assert forall|k: int| 0 <= k < s.len() implies s[k] <= max by {
            if k > 0 {
                assert(s[k] == t[k - 1]);
            }
        }
    }
}

/// Law: a table written in the Diamond/Pearl/Platinum layout (424 bytes)
/// and read back in it keeps every field that layout holds: the rates, the
/// land, radar, form-rate, dual-slot and water slots, the Unown table, and
/// the first two swarm, day and night species.
pub proof fn dppt_encounter_roundtrip(f: BinaryEncounterFile, g: BinaryEncounterFile)
    requires
        dppt_decoded(g, dppt_encode(f)),
    ensures
        dppt_encode(f).len() == DPPT_ENCOUNTER_FILE_SIZE,
        g.walking_rate == f.walking_rate,
        g.grass_encounters@ == f.grass_encounters@,
        g.swarm_encounters@.take(2) == f.swarm_encounters@.take(2),
        g.day_encounters@.take(2) == f.day_encounters@.take(2),
        g.night_encounters@.take(2) == f.night_encounters@.take(2),
        g.radar_encounters@ == f.radar_encounters@,
        g.form_encounter_rates@ == f.form_encounter_rates@,
        g.unown_table_id == f.unown_table_id,
        g.dual_slot_ruby@ == f.dual_slot_ruby@,
        g.dual_slot_sapphire@ == f.dual_slot_sapphire@,
        g.dual_slot_emerald@ == f.dual_slot_emerald@,
        g.dual_slot_firered@ == f.dual_slot_firered@,
        g.dual_slot_leafgreen@ == f.dual_slot_leafgreen@,
        g.surf_rate == f.surf_rate,
        g.surf_encounters@ == f.surf_encounters@,
        g.old_rod_rate == f.old_rod_rate,
        g.old_rod_encounters@ == f.old_rod_encounters@,
        g.good_rod_rate == f.good_rod_rate,
        g.good_rod_encounters@ == f.good_rod_encounters@,
        g.super_rod_rate == f.super_rod_rate,
        g.super_rod_encounters@ == f.super_rod_encounters@,
{
    let segs = dppt_segments(f);
    let e = dppt_encode(f);
    lemma_dppt_layout(f);
    crate::bytes::lemma_u32_front(e, 0, f.walking_rate, segs.skip(1).flatten());
    lemma_dppt_grass(f.grass_encounters@, segs.skip(2).flatten());
    lemma_u32s(f.swarm_encounters@.take(2), segs.skip(3).flatten());
    lemma_u32s(f.day_encounters@.take(2), segs.skip(4).flatten());
    lemma_u32s(f.night_encounters@.take(2), segs.skip(5).flatten());
    lemma_u32s(f.radar_encounters@, segs.skip(6).flatten());
    lemma_u32s(f.form_encounter_rates@, segs.skip(7).flatten());
    crate::bytes::lemma_u32_front(e, 160, f.unown_table_id, segs.skip(8).flatten());
    lemma_u32s(f.dual_slot_ruby@, segs.skip(9).flatten());
    lemma_u32s(f.dual_slot_sapphire@, segs.skip(10).flatten());
    lemma_u32s(f.dual_slot_emerald@, segs.skip(11).flatten());
    lemma_u32s(f.dual_slot_firered@, segs.skip(12).flatten());
    lemma_u32s(f.dual_slot_leafgreen@, segs.skip(13).flatten());
    crate::bytes::lemma_u32_front(e, 204, f.surf_rate, segs.skip(14).flatten());
    lemma_dppt_water(f.surf_encounters@, segs.skip(15).flatten());
    crate::bytes::lemma_u32_front(e, 292, f.old_rod_rate, segs.skip(17).flatten());
    lemma_dppt_water(f.old_rod_encounters@, segs.skip(18).flatten());
    crate::bytes::lemma_u32_front(e, 336, f.good_rod_rate, segs.skip(19).flatten());
    lemma_dppt_water(f.good_rod_encounters@, segs.skip(20).flatten());
    crate::bytes::lemma_u32_front(e, 380, f.super_rod_rate, segs.skip(21).flatten());
    lemma_dppt_water(f.super_rod_encounters@, segs.skip(22).flatten());
}

/// Law: a table that the HeartGold/SoulSilver layout can hold (no
/// validation problem), written in it (204 bytes) and read back, keeps every
/// field that layout holds: the six rates, the morning, day, night, swarm and
/// music species and the water and rock smash slots; the land slots read
/// back are the morning slots.
pub proof fn hgss_encounter_roundtrip(f: BinaryEncounterFile, g: BinaryEncounterFile)
    requires
        hgss_problem(f) is None,
        hgss_decoded(g, hgss_encode(f)),
    ensures
        hgss_encode(f).len() == 204,
        g.walking_rate == f.walking_rate,
        g.surf_rate == f.surf_rate,
        g.rock_smash_rate == f.rock_smash_rate,
        g.old_rod_rate == f.old_rod_rate,
        g.good_rod_rate == f.good_rod_rate,
        g.super_rod_rate == f.super_rod_rate,
        g.morning_encounters@ == f.morning_encounters@,
        g.grass_encounters@ == f.morning_encounters@,
        g.day_encounters@ == f.day_encounters@,
        g.night_encounters@ == f.night_encounters@,
        g.swarm_encounters@ == f.swarm_encounters@,
        g.music_encounters@ == f.music_encounters@,
        g.surf_encounters@ == f.surf_encounters@,
        g.rock_smash_encounters@ == f.rock_smash_encounters@,
        g.old_rod_encounters@ == f.old_rod_encounters@,
        g.good_rod_encounters@ == f.good_rod_encounters@,
        g.super_rod_encounters@ == f.super_rod_encounters@,
{
    let segs = hgss_segments(f);
    let e = hgss_encode(f);
    let ps = hgss_checks(f);
    lemma_hgss_layout(f);
    assert forall|i: int| 0 <= i < 16 implies #[trigger] ps[i] is None by {
        lemma_no_problem(ps, i);
    }
    assert(ps[0] is None && ps[1] is None && ps[2] is None && ps[3] is None && ps[4] is None && ps[5] is None);
    let m = f.morning_encounters@;
    assert(ps[6] is None);
    lemma_none_over(species_of(m), 0xFFFF);
    assert(ps[7] is None);
    lemma_none_over(f.day_encounters@, 0xFFFF);
    assert(ps[8] is None);
    lemma_none_over(f.night_encounters@, 0xFFFF);
    assert(ps[9] is None);
    lemma_none_over(f.swarm_encounters@, 0xFFFF);
    assert(ps[10] is None);
    lemma_none_over(f.music_encounters@, 0xFFFF);
    assert(ps[11] is None);
    lemma_none_over(water_species_of(f.surf_encounters@), 0xFFFF);
    assert(ps[12] is None);
    lemma_none_over(water_species_of(f.rock_smash_encounters@), 0xFFFF);
    assert(ps[13] is None);
    lemma_none_over(water_species_of(f.old_rod_encounters@), 0xFFFF);
    assert(ps[14] is None);
    lemma_none_over(water_species_of(f.good_rod_encounters@), 0xFFFF);
    assert(ps[15] is None);
    lemma_none_over(water_species_of(f.super_rod_encounters@), 0xFFFF);
    // rates
    assert(e.skip(0) == hgss_rates_bytes(f) + segs.skip(1).flatten());
    assert(e[0] == e.skip(0)[0] && e[1] == e.skip(0)[1] && e[2] == e.skip(0)[2]);
    assert(e[3] == e.skip(0)[3] && e[4] == e.skip(0)[4] && e[5] == e.skip(0)[5]);
    // morning
    lemma_levels(levels_of(m), segs.skip(2).flatten());
    lemma_u16s(species_of(m), segs.skip(3).flatten());
    assert forall|i: int| 0 <= i < 12 implies #[trigger] hgss_morning(e)[i] == m[i] by {
        let lv = list_dec(e.skip(8), 1, 12, |c: Seq<u8>| c[0]);
        assert(lv[i] == levels_of(m)[i]);
        assert(e.skip(8).skip(1 * i)[0] == e[8 + i]);
        assert(u16_list(e.skip(20), 12)[i] == species_of(m)[i]);
        lemma_skip_skip(e, 20, 2 * i);
        lemma_u16_at_skip(e, 20 + 2 * i, 0);
    }
    assert(hgss_morning(e) =~= m);
    lemma_u16s(f.day_encounters@, segs.skip(4).flatten());
    lemma_u16s(f.night_encounters@, segs.skip(5).flatten());
    lemma_u16s(f.swarm_encounters@, segs.skip(6).flatten());
    lemma_u16s(f.music_encounters@, segs.skip(7).flatten());
    assert forall|i: int| 0 <= i < f.surf_encounters@.len() implies f.surf_encounters@[i].species <= 0xFFFF by {
        assert(water_species_of(f.surf_encounters@)[i] == f.surf_encounters@[i].species);
    }
    assert forall|i: int| 0 <= i < f.rock_smash_encounters@.len() implies f.rock_smash_encounters@[i].species <= 0xFFFF by {
        assert(water_species_of(f.rock_smash_encounters@)[i] == f.rock_smash_encounters@[i].species);
    }
    assert forall|i: int| 0 <= i < f.old_rod_encounters@.len() implies f.old_rod_encounters@[i].species <= 0xFFFF by {
        assert(water_species_of(f.old_rod_encounters@)[i] == f.old_rod_encounters@[i].species);
    }
    assert forall|i: int| 0 <= i < f.good_rod_encounters@.len() implies f.good_rod_encounters@[i].species <= 0xFFFF by {
        assert(water_species_of(f.good_rod_encounters@)[i] == f.good_rod_encounters@[i].species);
    }
    assert forall|i: int| 0 <= i < f.super_rod_encounters@.len() implies f.super_rod_encounters@[i].species <= 0xFFFF by {
        assert(water_species_of(f.super_rod_encounters@)[i] == f.super_rod_encounters@[i].species);
    }
    lemma_hgss_water(f.surf_encounters@, segs.skip(8).flatten());
    lemma_hgss_water(f.rock_smash_encounters@, segs.skip(9).flatten());
    lemma_hgss_water(f.old_rod_encounters@, segs.skip(10).flatten());
    lemma_hgss_water(f.good_rod_encounters@, segs.skip(11).flatten());
    lemma_hgss_water(f.super_rod_encounters@, segs.skip(12).flatten());
}


/// Two arrays with the same elements are the same array.
proof fn lemma_arrays_eq<T, const N: usize>(a: [T; N], b: [T; N])
    requires
        a@ == b@,
    ensures
        a == b,
{
    broadcast use vstd::array::group_array_axioms;
    assert forall|i: int| 0 <= i < N implies a[i] == b[i] by {
        assert(a@[i] == b@[i]);
    }
    assert(a =~= b);
}

/// Two word lists of zeros of one length are equal.
proof fn lemma_zeros_eq(a: Seq<u32>, b: Seq<u32>)
    requires
        a.len() == b.len(),
        all_zero(a),
        all_zero(b),
    ensures
        a == b,
{
    assert(a =~= b);
}

/// Law: a table that the HeartGold/SoulSilver layout can hold exactly (no
/// validation problem, land slots equal to the morning slots, the fields of
/// the other layout zero), written in it and read back, is the same table.
pub proof fn hgss_encounter_file_roundtrip(f: BinaryEncounterFile, g: BinaryEncounterFile)
    requires
        hgss_problem(f) is None,
        f.grass_encounters == f.morning_encounters,
        all_zero(f.radar_encounters@),
        all_zero(f.form_encounter_rates@),
        f.unown_table_id == 0,
        all_zero(f.dual_slot_ruby@),
        all_zero(f.dual_slot_sapphire@),
        all_zero(f.dual_slot_emerald@),
        all_zero(f.dual_slot_firered@),
        all_zero(f.dual_slot_leafgreen@),
        hgss_decoded(g, hgss_encode(f)),
    ensures
        hgss_encode(f).len() == 204,
        g == f,
{
    hgss_encounter_roundtrip(f, g);
    lemma_arrays_eq(g.morning_encounters, f.morning_encounters);
    lemma_arrays_eq(g.grass_encounters, f.grass_encounters);
    lemma_arrays_eq(g.day_encounters, f.day_encounters);
    lemma_arrays_eq(g.night_encounters, f.night_encounters);
    lemma_arrays_eq(g.swarm_encounters, f.swarm_encounters);
    lemma_arrays_eq(g.music_encounters, f.music_encounters);
    lemma_arrays_eq(g.surf_encounters, f.surf_encounters);
    lemma_arrays_eq(g.rock_smash_encounters, f.rock_smash_encounters);
    lemma_arrays_eq(g.old_rod_encounters, f.old_rod_encounters);
    lemma_arrays_eq(g.good_rod_encounters, f.good_rod_encounters);
    lemma_arrays_eq(g.super_rod_encounters, f.super_rod_encounters);
    lemma_zeros_eq(g.radar_encounters@, f.radar_encounters@);
    lemma_arrays_eq(g.radar_encounters, f.radar_encounters);
    lemma_zeros_eq(g.form_encounter_rates@, f.form_encounter_rates@);
    lemma_arrays_eq(g.form_encounter_rates, f.form_encounter_rates);
    lemma_zeros_eq(g.dual_slot_ruby@, f.dual_slot_ruby@);
    lemma_arrays_eq(g.dual_slot_ruby, f.dual_slot_ruby);
    lemma_zeros_eq(g.dual_slot_sapphire@, f.dual_slot_sapphire@);
    lemma_arrays_eq(g.dual_slot_sapphire, f.dual_slot_sapphire);
    lemma_zeros_eq(g.dual_slot_emerald@, f.dual_slot_emerald@);
    lemma_arrays_eq(g.dual_slot_emerald, f.dual_slot_emerald);
    lemma_zeros_eq(g.dual_slot_firered@, f.dual_slot_firered@);
    lemma_arrays_eq(g.dual_slot_firered, f.dual_slot_firered);
    lemma_zeros_eq(g.dual_slot_leafgreen@, f.dual_slot_leafgreen@);
    lemma_arrays_eq(g.dual_slot_leafgreen, f.dual_slot_leafgreen);
}

/// Law: a table that the Diamond/Pearl/Platinum layout can hold exactly
/// (only two swarm, day and night species, no music or rock smash slots, no
/// morning slots), written in it and read back, is the same table.
pub proof fn dppt_encounter_file_roundtrip(f: BinaryEncounterFile, g: BinaryEncounterFile)
    requires
        all_zero(f.swarm_encounters@.skip(2)),
        all_zero(f.day_encounters@.skip(2)),
        all_zero(f.night_encounters@.skip(2)),
        all_zero(f.music_encounters@),
        f.rock_smash_rate == 0,
        all_default_water(f.rock_smash_encounters@),
        all_default_land(f.morning_encounters@),
        dppt_decoded(g, dppt_encode(f)),
    ensures
        dppt_encode(f).len() == DPPT_ENCOUNTER_FILE_SIZE,
        g == f,
{
    dppt_encounter_roundtrip(f, g);
    assert(g.swarm_encounters@ =~= g.swarm_encounters@.take(2) + g.swarm_encounters@.skip(2));
    assert(f.swarm_encounters@ =~= f.swarm_encounters@.take(2) + f.swarm_encounters@.skip(2));
    lemma_zeros_eq(g.swarm_encounters@.skip(2), f.swarm_encounters@.skip(2));
    lemma_arrays_eq(g.swarm_encounters, f.swarm_encounters);
    assert(g.day_encounters@ =~= g.day_encounters@.take(2) + g.day_encounters@.skip(2));
    assert(f.day_encounters@ =~= f.day_encounters@.take(2) + f.day_encounters@.skip(2));
    lemma_zeros_eq(g.day_encounters@.skip(2), f.day_encounters@.skip(2));
    lemma_arrays_eq(g.day_encounters, f.day_encounters);
    assert(g.night_encounters@ =~= g.night_encounters@.take(2) + g.night_encounters@.skip(2));
    assert(f.night_encounters@ =~= f.night_encounters@.take(2) + f.night_encounters@.skip(2));
    lemma_zeros_eq(g.night_encounters@.skip(2), f.night_encounters@.skip(2));
    lemma_arrays_eq(g.night_encounters, f.night_encounters);
    lemma_zeros_eq(g.music_encounters@, f.music_encounters@);
    lemma_arrays_eq(g.music_encounters, f.music_encounters);
    assert(g.rock_smash_encounters@ =~= f.rock_smash_encounters@);
    lemma_arrays_eq(g.rock_smash_encounters, f.rock_smash_encounters);
    assert(g.morning_encounters@ =~= f.morning_encounters@);
    lemma_arrays_eq(g.morning_encounters, f.morning_encounters);
    lemma_arrays_eq(g.grass_encounters, f.grass_encounters);
    lemma_arrays_eq(g.radar_encounters, f.radar_encounters);
    lemma_arrays_eq(g.form_encounter_rates, f.form_encounter_rates);
    lemma_arrays_eq(g.dual_slot_ruby, f.dual_slot_ruby);
    lemma_arrays_eq(g.dual_slot_sapphire, f.dual_slot_sapphire);
    lemma_arrays_eq(g.dual_slot_emerald, f.dual_slot_emerald);
    lemma_arrays_eq(g.dual_slot_firered, f.dual_slot_firered);
    lemma_arrays_eq(g.dual_slot_leafgreen, f.dual_slot_leafgreen);
    lemma_arrays_eq(g.surf_encounters, f.surf_encounters);
    lemma_arrays_eq(g.old_rod_encounters, f.old_rod_encounters);
    lemma_arrays_eq(g.good_rod_encounters, f.good_rod_encounters);
    lemma_arrays_eq(g.super_rod_encounters, f.super_rod_encounters);
}


/// The Diamond/Pearl/Platinum layout of any table is 424 bytes.
pub proof fn dppt_encode_len(f: BinaryEncounterFile)
    ensures
        dppt_encode(f).len() == DPPT_ENCOUNTER_FILE_SIZE,
{
    lemma_dppt_layout(f);
}

/// The HeartGold/SoulSilver layout of any table is 204 bytes: the 196 of
/// the table and the swarm species once more.
pub proof fn hgss_encode_len(f: BinaryEncounterFile)
    ensures
        hgss_encode(f).len() == 204,
{
    lemma_hgss_layout(f);
}

proof fn u32_pins(b: Seq<u8>, o: int, s: Seq<u32>, n: nat)
    requires
        0 <= o,
        o + 4 * n <= b.len(),
        s == u32_list(b.skip(o), n),
    ensures
        forall|k: int| 0 <= k < n ==> #[trigger] s[k] == u32_at(b, o + 4 * k),
{
    assert forall|k: int| 0 <= k < n implies #[trigger] s[k] == u32_at(b, o + 4 * k) by {
        let c = b.skip(o).skip(4 * k);
        assert(c[0] == b[o + 4 * k] && c[1] == b[o + 4 * k + 1] && c[2] == b[o + 4 * k + 2] && c[3] == b[o + 4 * k + 3]);
    }
}

proof fn u16_pins(b: Seq<u8>, o: int, s: Seq<u32>, n: nat)
    requires
        0 <= o,
        o + 2 * n <= b.len(),
        s == u16_list(b.skip(o), n),
    ensures
        forall|k: int| 0 <= k < n ==> #[trigger] s[k] == u16_at(b, o + 2 * k) as u32,
{
    assert forall|k: int| 0 <= k < n implies #[trigger] s[k] == u16_at(b, o + 2 * k) as u32 by {
        let c = b.skip(o).skip(2 * k);
        assert(c[0] == b[o + 2 * k] && c[1] == b[o + 2 * k + 1]);
    }
}

proof fn grass_pins(b: Seq<u8>, o: int, s: Seq<EncounterEntry>, n: nat)
    requires
        0 <= o,
        o + 8 * n <= b.len(),
        s == dppt_grass_list(b.skip(o), n),
    ensures
        forall|k: int| 0 <= k < n ==> #[trigger] s[k].level == b[o + 8 * k] && s[k].species == u32_at(b, o + 8 * k + 4),
{
    assert forall|k: int| 0 <= k < n implies #[trigger] s[k].level == b[o + 8 * k] && s[k].species == u32_at(b, o + 8 * k + 4) by {
        let c = b.skip(o).skip(8 * k);
        assert(c[0] == b[o + 8 * k] && c[4] == b[o + 8 * k + 4] && c[5] == b[o + 8 * k + 5] && c[6] == b[o + 8 * k + 6]
            && c[7] == b[o + 8 * k + 7]);
    }
}

proof fn dppt_water_pins(b: Seq<u8>, o: int, s: Seq<WaterEncounterEntry>, n: nat)
    requires
        0 <= o,
        o + 8 * n <= b.len(),
        s == dppt_water_list(b.skip(o), n),
    ensures
        forall|k: int| 0 <= k < n ==> #[trigger] s[k].max_level == b[o + 8 * k] && s[k].min_level == b[o + 8 * k + 1]
            && s[k].species == u32_at(b, o + 8 * k + 4),
{
    assert forall|k: int| 0 <= k < n implies #[trigger] s[k].max_level == b[o + 8 * k] && s[k].min_level == b[o + 8 * k
        + 1] && s[k].species == u32_at(b, o + 8 * k + 4) by {
        let c = b.skip(o).skip(8 * k);
        assert(c[0] == b[o + 8 * k] && c[1] == b[o + 8 * k + 1] && c[4] == b[o + 8 * k + 4] && c[5] == b[o + 8 * k + 5]
            && c[6] == b[o + 8 * k + 6] && c[7] == b[o + 8 * k + 7]);
    }
}

proof fn hgss_water_pins(b: Seq<u8>, o: int, s: Seq<WaterEncounterEntry>, n: nat)
    requires
        0 <= o,
        o + 4 * n <= b.len(),
        s == hgss_water_list(b.skip(o), n),
    ensures
        forall|k: int| 0 <= k < n ==> #[trigger] s[k].min_level == b[o + 4 * k] && s[k].max_level == b[o + 4 * k + 1]
            && s[k].species == u16_at(b, o + 4 * k + 2) as u32,
{
    assert forall|k: int| 0 <= k < n implies #[trigger] s[k].min_level == b[o + 4 * k] && s[k].max_level == b[o + 4 * k
        + 1] && s[k].species == u16_at(b, o + 4 * k + 2) as u32 by {
        let c = b.skip(o).skip(4 * k);
        assert(c[0] == b[o + 4 * k] && c[1] == b[o + 4 * k + 1] && c[2] == b[o + 4 * k + 2] && c[3] == b[o + 4 * k + 3]);
    }
}

/// Law: reading a Diamond/Pearl/Platinum table takes every field from its
/// place in the bytes: the walking rate
/// (a little-endian `u32`) at 0; twelve land slots of eight bytes from 4
/// (the level in the first byte, the species the `u32` at +4); the first
/// two swarm, day and night species as `u32`s from 100, 108 and 116; four
/// radar species from 124; five form rates from 140; the Unown table at
/// 160; two species for each of Ruby, Sapphire, Emerald, FireRed and
/// LeafGreen from 164, 172, 180, 188 and 196; then the surf rate at 204
/// with five water slots from 208, the old rod at 292/296, the good rod at
/// 336/340 and the super rod at 380/384. A water slot is eight bytes: the
/// maximum level, the minimum level, two bytes, the species `u32` at +4.
#[verifier::spinoff_prover]
#[verifier::rlimit(60)]
pub proof fn dppt_read_layout(b: Seq<u8>, f: BinaryEncounterFile)
    requires
        b.len() >= DPPT_ENCOUNTER_FILE_SIZE,
        dppt_decoded(f, b),
    ensures
        f.walking_rate == u32_at(b, 0),
        forall|k: int| 0 <= k < 12 ==> #[trigger] f.grass_encounters@[k].level == b[4 + 8 * k]
            && f.grass_encounters@[k].species == u32_at(b, 8 + 8 * k),
        forall|k: int| 0 <= k < 2 ==> #[trigger] f.swarm_encounters@[k] == u32_at(b, 100 + 4 * k),
        forall|k: int| 0 <= k < 2 ==> #[trigger] f.day_encounters@[k] == u32_at(b, 108 + 4 * k),
        forall|k: int| 0 <= k < 2 ==> #[trigger] f.night_encounters@[k] == u32_at(b, 116 + 4 * k),
        forall|k: int| 0 <= k < 4 ==> #[trigger] f.radar_encounters@[k] == u32_at(b, 124 + 4 * k),
        forall|k: int| 0 <= k < 5 ==> #[trigger] f.form_encounter_rates@[k] == u32_at(b, 140 + 4 * k),
        f.unown_table_id == u32_at(b, 160),
        forall|k: int| 0 <= k < 2 ==> #[trigger] f.dual_slot_ruby@[k] == u32_at(b, 164 + 4 * k),
        forall|k: int| 0 <= k < 2 ==> #[trigger] f.dual_slot_sapphire@[k] == u32_at(b, 172 + 4 * k),
        forall|k: int| 0 <= k < 2 ==> #[trigger] f.dual_slot_emerald@[k] == u32_at(b, 180 + 4 * k),
        forall|k: int| 0 <= k < 2 ==> #[trigger] f.dual_slot_firered@[k] == u32_at(b, 188 + 4 * k),
        forall|k: int| 0 <= k < 2 ==> #[trigger] f.dual_slot_leafgreen@[k] == u32_at(b, 196 + 4 * k),
        f.surf_rate == u32_at(b, 204),
        forall|k: int| 0 <= k < 5 ==> #[trigger] f.surf_encounters@[k].max_level == b[208 + 8 * k]
            && f.surf_encounters@[k].min_level == b[209 + 8 * k] && f.surf_encounters@[k].species == u32_at(b, 212 + 8 * k),
        f.old_rod_rate == u32_at(b, 292),
        forall|k: int| 0 <= k < 5 ==> #[trigger] f.old_rod_encounters@[k].max_level == b[296 + 8 * k]
            && f.old_rod_encounters@[k].min_level == b[297 + 8 * k] && f.old_rod_encounters@[k].species == u32_at(b, 300 + 8 * k),
        f.good_rod_rate == u32_at(b, 336),
        forall|k: int| 0 <= k < 5 ==> #[trigger] f.good_rod_encounters@[k].max_level == b[340 + 8 * k]
            && f.good_rod_encounters@[k].min_level == b[341 + 8 * k] && f.good_rod_encounters@[k].species == u32_at(b, 344 + 8 * k),
        f.super_rod_rate == u32_at(b, 380),
        forall|k: int| 0 <= k < 5 ==> #[trigger] f.super_rod_encounters@[k].max_level == b[384 + 8 * k]
            && f.super_rod_encounters@[k].min_level == b[385 + 8 * k] && f.super_rod_encounters@[k].species == u32_at(b, 388 + 8 * k),
{
    grass_pins(b, 4, f.grass_encounters@, 12);
    u32_pins(b, 100, f.swarm_encounters@.take(2), 2);
    u32_pins(b, 108, f.day_encounters@.take(2), 2);
    u32_pins(b, 116, f.night_encounters@.take(2), 2);
    u32_pins(b, 124, f.radar_encounters@, 4);
    u32_pins(b, 140, f.form_encounter_rates@, 5);
    u32_pins(b, 164, f.dual_slot_ruby@, 2);
    u32_pins(b, 172, f.dual_slot_sapphire@, 2);
    u32_pins(b, 180, f.dual_slot_emerald@, 2);
    u32_pins(b, 188, f.dual_slot_firered@, 2);
    u32_pins(b, 196, f.dual_slot_leafgreen@, 2);
    dppt_water_pins(b, 208, f.surf_encounters@, 5);
    dppt_water_pins(b, 296, f.old_rod_encounters@, 5);
    dppt_water_pins(b, 340, f.good_rod_encounters@, 5);
    dppt_water_pins(b, 384, f.super_rod_encounters@, 5);
    assert forall|k: int| 0 <= k < 2 implies #[trigger] f.swarm_encounters@[k] == u32_at(b, 100 + 4 * k) by {
        assert(f.swarm_encounters@.take(2)[k] == f.swarm_encounters@[k]);
    }
    assert forall|k: int| 0 <= k < 2 implies #[trigger] f.day_encounters@[k] == u32_at(b, 108 + 4 * k) by {
        assert(f.day_encounters@.take(2)[k] == f.day_encounters@[k]);
    }
    assert forall|k: int| 0 <= k < 2 implies #[trigger] f.night_encounters@[k] == u32_at(b, 116 + 4 * k) by {
        assert(f.night_encounters@.take(2)[k] == f.night_encounters@[k]);
    }
}

/// Law: writing a table in the Diamond/Pearl/Platinum layout puts every
/// field where [`dppt_read_layout`] reads it, and zeros in bytes 248 to 291.
#[verifier::spinoff_prover]
#[verifier::rlimit(60)]
pub proof fn dppt_write_layout(f: BinaryEncounterFile)
    ensures
        dppt_encode(f).len() == DPPT_ENCOUNTER_FILE_SIZE,
        f.walking_rate == u32_at(dppt_encode(f), 0),
        forall|k: int| 0 <= k < 12 ==> #[trigger] f.grass_encounters@[k].level == dppt_encode(f)[4 + 8 * k]
            && f.grass_encounters@[k].species == u32_at(dppt_encode(f), 8 + 8 * k),
        forall|k: int| 0 <= k < 2 ==> #[trigger] f.swarm_encounters@[k] == u32_at(dppt_encode(f), 100 + 4 * k),
        forall|k: int| 0 <= k < 2 ==> #[trigger] f.day_encounters@[k] == u32_at(dppt_encode(f), 108 + 4 * k),
        forall|k: int| 0 <= k < 2 ==> #[trigger] f.night_encounters@[k] == u32_at(dppt_encode(f), 116 + 4 * k),
        forall|k: int| 0 <= k < 4 ==> #[trigger] f.radar_encounters@[k] == u32_at(dppt_encode(f), 124 + 4 * k),
        forall|k: int| 0 <= k < 5 ==> #[trigger] f.form_encounter_rates@[k] == u32_at(dppt_encode(f), 140 + 4 * k),
        f.unown_table_id == u32_at(dppt_encode(f), 160),
        forall|k: int| 0 <= k < 2 ==> #[trigger] f.dual_slot_ruby@[k] == u32_at(dppt_encode(f), 164 + 4 * k),
        forall|k: int| 0 <= k < 2 ==> #[trigger] f.dual_slot_sapphire@[k] == u32_at(dppt_encode(f), 172 + 4 * k),
        forall|k: int| 0 <= k < 2 ==> #[trigger] f.dual_slot_emerald@[k] == u32_at(dppt_encode(f), 180 + 4 * k),
        forall|k: int| 0 <= k < 2 ==> #[trigger] f.dual_slot_firered@[k] == u32_at(dppt_encode(f), 188 + 4 * k),
        forall|k: int| 0 <= k < 2 ==> #[trigger] f.dual_slot_leafgreen@[k] == u32_at(dppt_encode(f), 196 + 4 * k),
        f.surf_rate == u32_at(dppt_encode(f), 204),
        forall|k: int| 0 <= k < 5 ==> #[trigger] f.surf_encounters@[k].max_level == dppt_encode(f)[208 + 8 * k]
            && f.surf_encounters@[k].min_level == dppt_encode(f)[209 + 8 * k] && f.surf_encounters@[k].species == u32_at(dppt_encode(f), 212 + 8 * k),
        f.old_rod_rate == u32_at(dppt_encode(f), 292),
        forall|k: int| 0 <= k < 5 ==> #[trigger] f.old_rod_encounters@[k].max_level == dppt_encode(f)[296 + 8 * k]
            && f.old_rod_encounters@[k].min_level == dppt_encode(f)[297 + 8 * k] && f.old_rod_encounters@[k].species == u32_at(dppt_encode(f), 300 + 8 * k),
        f.good_rod_rate == u32_at(dppt_encode(f), 336),
        forall|k: int| 0 <= k < 5 ==> #[trigger] f.good_rod_encounters@[k].max_level == dppt_encode(f)[340 + 8 * k]
            && f.good_rod_encounters@[k].min_level == dppt_encode(f)[341 + 8 * k] && f.good_rod_encounters@[k].species == u32_at(dppt_encode(f), 344 + 8 * k),
        f.super_rod_rate == u32_at(dppt_encode(f), 380),
        forall|k: int| 0 <= k < 5 ==> #[trigger] f.super_rod_encounters@[k].max_level == dppt_encode(f)[384 + 8 * k]
            && f.super_rod_encounters@[k].min_level == dppt_encode(f)[385 + 8 * k] && f.super_rod_encounters@[k].species == u32_at(dppt_encode(f), 388 + 8 * k),
        forall|i: int| 248 <= i < 292 ==> #[trigger] dppt_encode(f)[i] == 0,
{
    let segs = dppt_segments(f);
    let e = dppt_encode(f);
    lemma_dppt_layout(f);
    crate::bytes::lemma_u32_front(e, 0, f.walking_rate, segs.skip(1).flatten());
    crate::bytes::lemma_u32_front(e, 160, f.unown_table_id, segs.skip(8).flatten());
    crate::bytes::lemma_u32_front(e, 204, f.surf_rate, segs.skip(14).flatten());
    crate::bytes::lemma_u32_front(e, 292, f.old_rod_rate, segs.skip(17).flatten());
    crate::bytes::lemma_u32_front(e, 336, f.good_rod_rate, segs.skip(19).flatten());
    crate::bytes::lemma_u32_front(e, 380, f.super_rod_rate, segs.skip(21).flatten());
    lemma_dppt_grass(f.grass_encounters@, segs.skip(2).flatten());
    grass_pins(e, 4, f.grass_encounters@, 12);
    lemma_u32s(f.swarm_encounters@.take(2), segs.skip(3).flatten());
    u32_pins(e, 100, f.swarm_encounters@.take(2), 2);
    lemma_u32s(f.day_encounters@.take(2), segs.skip(4).flatten());
    u32_pins(e, 108, f.day_encounters@.take(2), 2);
    lemma_u32s(f.night_encounters@.take(2), segs.skip(5).flatten());
    u32_pins(e, 116, f.night_encounters@.take(2), 2);
    lemma_u32s(f.radar_encounters@, segs.skip(6).flatten());
    u32_pins(e, 124, f.radar_encounters@, 4);
    lemma_u32s(f.form_encounter_rates@, segs.skip(7).flatten());
    u32_pins(e, 140, f.form_encounter_rates@, 5);
    lemma_u32s(f.dual_slot_ruby@, segs.skip(9).flatten());
    u32_pins(e, 164, f.dual_slot_ruby@, 2);
    lemma_u32s(f.dual_slot_sapphire@, segs.skip(10).flatten());
    u32_pins(e, 172, f.dual_slot_sapphire@, 2);
    lemma_u32s(f.dual_slot_emerald@, segs.skip(11).flatten());
    u32_pins(e, 180, f.dual_slot_emerald@, 2);
    lemma_u32s(f.dual_slot_firered@, segs.skip(12).flatten());
    u32_pins(e, 188, f.dual_slot_firered@, 2);
    lemma_u32s(f.dual_slot_leafgreen@, segs.skip(13).flatten());
    u32_pins(e, 196, f.dual_slot_leafgreen@, 2);
    lemma_dppt_water(f.surf_encounters@, segs.skip(15).flatten());
    dppt_water_pins(e, 208, f.surf_encounters@, 5);
    lemma_dppt_water(f.old_rod_encounters@, segs.skip(18).flatten());
    dppt_water_pins(e, 296, f.old_rod_encounters@, 5);
    lemma_dppt_water(f.good_rod_encounters@, segs.skip(20).flatten());
    dppt_water_pins(e, 340, f.good_rod_encounters@, 5);
    lemma_dppt_water(f.super_rod_encounters@, segs.skip(22).flatten());
    dppt_water_pins(e, 384, f.super_rod_encounters@, 5);
    assert forall|k: int| 0 <= k < 2 implies #[trigger] f.swarm_encounters@[k] == u32_at(e, 100 + 4 * k) by {
        assert(f.swarm_encounters@.take(2)[k] == f.swarm_encounters@[k]);
    }
    assert forall|k: int| 0 <= k < 2 implies #[trigger] f.day_encounters@[k] == u32_at(e, 108 + 4 * k) by {
        assert(f.day_encounters@.take(2)[k] == f.day_encounters@[k]);
    }
    assert forall|k: int| 0 <= k < 2 implies #[trigger] f.night_encounters@[k] == u32_at(e, 116 + 4 * k) by {
        assert(f.night_encounters@.take(2)[k] == f.night_encounters@[k]);
    }
    assert forall|i: int| 248 <= i < 292 implies #[trigger] e[i] == 0 by {
        assert(e.skip(248)[i - 248] == e[i]);
        assert(segs[15] == zeros(44));
    }
}

/// What the bytes written for a table that the HeartGold/SoulSilver layout
/// can hold read as, list by list.
proof fn lemma_hgss_encoded(f: BinaryEncounterFile)
    requires
        hgss_problem(f) is None,
    ensures
        hgss_encode(f).len() == 204,
        f.walking_rate < 256 && f.surf_rate < 256 && f.rock_smash_rate < 256,
        f.old_rod_rate < 256 && f.good_rod_rate < 256 && f.super_rod_rate < 256,
        hgss_encode(f)[0] == f.walking_rate as u8,
        hgss_encode(f)[1] == f.surf_rate as u8,
        hgss_encode(f)[2] == f.rock_smash_rate as u8,
        hgss_encode(f)[3] == f.old_rod_rate as u8,
        hgss_encode(f)[4] == f.good_rod_rate as u8,
        hgss_encode(f)[5] == f.super_rod_rate as u8,
        hgss_morning(hgss_encode(f)) == f.morning_encounters@,
        u16_list(hgss_encode(f).skip(44), 12) == f.day_encounters@,
        u16_list(hgss_encode(f).skip(68), 12) == f.night_encounters@,
        u16_list(hgss_encode(f).skip(92), 4) == f.swarm_encounters@,
        u16_list(hgss_encode(f).skip(100), 4) == f.music_encounters@,
        hgss_water_list(hgss_encode(f).skip(108), 5) == f.surf_encounters@,
        hgss_water_list(hgss_encode(f).skip(128), 2) == f.rock_smash_encounters@,
        hgss_water_list(hgss_encode(f).skip(136), 5) == f.old_rod_encounters@,
        hgss_water_list(hgss_encode(f).skip(156), 5) == f.good_rod_encounters@,
        hgss_water_list(hgss_encode(f).skip(176), 5) == f.super_rod_encounters@,
{
    let segs = hgss_segments(f);
    let e = hgss_encode(f);
    let ps = hgss_checks(f);
    lemma_hgss_layout(f);
    assert forall|i: int| 0 <= i < 16 implies #[trigger] ps[i] is None by {
        lemma_no_problem(ps, i);
    }
    assert(ps[0] is None && ps[1] is None && ps[2] is None && ps[3] is None && ps[4] is None && ps[5] is None);
    let m = f.morning_encounters@;
    assert(ps[6] is None);
    lemma_none_over(species_of(m), 0xFFFF);
    assert(ps[7] is None);
    lemma_none_over(f.day_encounters@, 0xFFFF);
    assert(ps[8] is None);
    lemma_none_over(f.night_encounters@, 0xFFFF);
    assert(ps[9] is None);
    lemma_none_over(f.swarm_encounters@, 0xFFFF);
    assert(ps[10] is None);
    lemma_none_over(f.music_encounters@, 0xFFFF);
    assert(ps[11] is None);
    lemma_none_over(water_species_of(f.surf_encounters@), 0xFFFF);
    assert(ps[12] is None);
    lemma_none_over(water_species_of(f.rock_smash_encounters@), 0xFFFF);
    assert(ps[13] is None);
    lemma_none_over(water_species_of(f.old_rod_encounters@), 0xFFFF);
    assert(ps[14] is None);
    lemma_none_over(water_species_of(f.good_rod_encounters@), 0xFFFF);
    assert(ps[15] is None);
    lemma_none_over(water_species_of(f.super_rod_encounters@), 0xFFFF);
    // rates
    assert(e.skip(0) == hgss_rates_bytes(f) + segs.skip(1).flatten());
    assert(e[0] == e.skip(0)[0] && e[1] == e.skip(0)[1] && e[2] == e.skip(0)[2]);
    assert(e[3] == e.skip(0)[3] && e[4] == e.skip(0)[4] && e[5] == e.skip(0)[5]);
    // morning
    lemma_levels(levels_of(m), segs.skip(2).flatten());
    lemma_u16s(species_of(m), segs.skip(3).flatten());
    assert forall|i: int| 0 <= i < 12 implies #[trigger] hgss_morning(e)[i] == m[i] by {
        let lv = list_dec(e.skip(8), 1, 12, |c: Seq<u8>| c[0]);
        assert(lv[i] == levels_of(m)[i]);
        assert(e.skip(8).skip(1 * i)[0] == e[8 + i]);
        assert(u16_list(e.skip(20), 12)[i] == species_of(m)[i]);
        lemma_skip_skip(e, 20, 2 * i);
        lemma_u16_at_skip(e, 20 + 2 * i, 0);
    }
    assert(hgss_morning(e) =~= m);
    lemma_u16s(f.day_encounters@, segs.skip(4).flatten());
    lemma_u16s(f.night_encounters@, segs.skip(5).flatten());
    lemma_u16s(f.swarm_encounters@, segs.skip(6).flatten());
    lemma_u16s(f.music_encounters@, segs.skip(7).flatten());
    assert forall|i: int| 0 <= i < f.surf_encounters@.len() implies f.surf_encounters@[i].species <= 0xFFFF by {
        assert(water_species_of(f.surf_encounters@)[i] == f.surf_encounters@[i].species);
    }
    assert forall|i: int| 0 <= i < f.rock_smash_encounters@.len() implies f.rock_smash_encounters@[i].species <= 0xFFFF by {
        assert(water_species_of(f.rock_smash_encounters@)[i] == f.rock_smash_encounters@[i].species);
    }
    assert forall|i: int| 0 <= i < f.old_rod_encounters@.len() implies f.old_rod_encounters@[i].species <= 0xFFFF by {
        assert(water_species_of(f.old_rod_encounters@)[i] == f.old_rod_encounters@[i].species);
    }
    assert forall|i: int| 0 <= i < f.good_rod_encounters@.len() implies f.good_rod_encounters@[i].species <= 0xFFFF by {
        assert(water_species_of(f.good_rod_encounters@)[i] == f.good_rod_encounters@[i].species);
    }
    assert forall|i: int| 0 <= i < f.super_rod_encounters@.len() implies f.super_rod_encounters@[i].species <= 0xFFFF by {
        assert(water_species_of(f.super_rod_encounters@)[i] == f.super_rod_encounters@[i].species);
    }
    lemma_hgss_water(f.surf_encounters@, segs.skip(8).flatten());
    lemma_hgss_water(f.rock_smash_encounters@, segs.skip(9).flatten());
    lemma_hgss_water(f.old_rod_encounters@, segs.skip(10).flatten());
    lemma_hgss_water(f.good_rod_encounters@, segs.skip(11).flatten());
    lemma_hgss_water(f.super_rod_encounters@, segs.skip(12).flatten());
}
/// Law: reading a HeartGold/SoulSilver table takes every field from its
/// place in the bytes: the walking, surf, rock smash, old, good and super
/// rod rates are bytes 0 to 5; the twelve morning levels are bytes 8 to 19
/// and the morning species little-endian `u16`s from 20 (the land slots are
/// the morning slots); twelve day and twelve night species from 44 and 68,
/// four swarm and four music species from 92 and 100, all `u16`s; then the
/// water slots of four bytes (minimum level, maximum level, `u16` species):
/// five surf slots from 108, two rock smash slots from 128, and five slots
/// each for the old, good and super rods from 136, 156 and 176.
#[verifier::spinoff_prover]
#[verifier::rlimit(60)]
pub proof fn hgss_read_layout(b: Seq<u8>, f: BinaryEncounterFile)
    requires
        b.len() >= HGSS_ENCOUNTER_FILE_SIZE,
        hgss_decoded(f, b),
    ensures
        f.walking_rate == b[0] as u32,
        f.surf_rate == b[1] as u32,
        f.rock_smash_rate == b[2] as u32,
        f.old_rod_rate == b[3] as u32,
        f.good_rod_rate == b[4] as u32,
        f.super_rod_rate == b[5] as u32,
        forall|k: int| 0 <= k < 12 ==> #[trigger] f.morning_encounters@[k].level == b[8 + k] && f.morning_encounters@[k].species == u16_at(b, 20 + 2 * k) as u32,
        forall|k: int| 0 <= k < 12 ==> #[trigger] f.day_encounters@[k] == u16_at(b, 44 + 2 * k) as u32,
        forall|k: int| 0 <= k < 12 ==> #[trigger] f.night_encounters@[k] == u16_at(b, 68 + 2 * k) as u32,
        forall|k: int| 0 <= k < 4 ==> #[trigger] f.swarm_encounters@[k] == u16_at(b, 92 + 2 * k) as u32,
        forall|k: int| 0 <= k < 4 ==> #[trigger] f.music_encounters@[k] == u16_at(b, 100 + 2 * k) as u32,
        forall|k: int| 0 <= k < 5 ==> #[trigger] f.surf_encounters@[k].min_level == b[108 + 4 * k] && f.surf_encounters@[k].max_level == b[109 + 4 * k] && f.surf_encounters@[k].species == u16_at(b, 110 + 4 * k) as u32,
        forall|k: int| 0 <= k < 2 ==> #[trigger] f.rock_smash_encounters@[k].min_level == b[128 + 4 * k] && f.rock_smash_encounters@[k].max_level == b[129 + 4 * k] && f.rock_smash_encounters@[k].species == u16_at(b, 130 + 4 * k) as u32,
        forall|k: int| 0 <= k < 5 ==> #[trigger] f.old_rod_encounters@[k].min_level == b[136 + 4 * k] && f.old_rod_encounters@[k].max_level == b[137 + 4 * k] && f.old_rod_encounters@[k].species == u16_at(b, 138 + 4 * k) as u32,
        forall|k: int| 0 <= k < 5 ==> #[trigger] f.good_rod_encounters@[k].min_level == b[156 + 4 * k] && f.good_rod_encounters@[k].max_level == b[157 + 4 * k] && f.good_rod_encounters@[k].species == u16_at(b, 158 + 4 * k) as u32,
        forall|k: int| 0 <= k < 5 ==> #[trigger] f.super_rod_encounters@[k].min_level == b[176 + 4 * k] && f.super_rod_encounters@[k].max_level == b[177 + 4 * k] && f.super_rod_encounters@[k].species == u16_at(b, 178 + 4 * k) as u32,
        forall|k: int| 0 <= k < 12 ==> #[trigger] f.grass_encounters@[k] == f.morning_encounters@[k],
{
    u16_pins(b, 44, f.day_encounters@, 12);
    u16_pins(b, 68, f.night_encounters@, 12);
    u16_pins(b, 92, f.swarm_encounters@, 4);
    u16_pins(b, 100, f.music_encounters@, 4);
    hgss_water_pins(b, 108, f.surf_encounters@, 5);
    hgss_water_pins(b, 128, f.rock_smash_encounters@, 2);
    hgss_water_pins(b, 136, f.old_rod_encounters@, 5);
    hgss_water_pins(b, 156, f.good_rod_encounters@, 5);
    hgss_water_pins(b, 176, f.super_rod_encounters@, 5);
}

/// Law: writing a table that the HeartGold/SoulSilver layout can hold puts
/// every field where [`hgss_read_layout`] reads it.
#[verifier::spinoff_prover]
#[verifier::rlimit(60)]
pub proof fn hgss_write_layout(f: BinaryEncounterFile)
    requires
        hgss_problem(f) is None,
    ensures
        hgss_encode(f).len() >= HGSS_ENCOUNTER_FILE_SIZE,
        f.walking_rate == hgss_encode(f)[0] as u32,
        f.surf_rate == hgss_encode(f)[1] as u32,
        f.rock_smash_rate == hgss_encode(f)[2] as u32,
        f.old_rod_rate == hgss_encode(f)[3] as u32,
        f.good_rod_rate == hgss_encode(f)[4] as u32,
        f.super_rod_rate == hgss_encode(f)[5] as u32,
        forall|k: int| 0 <= k < 12 ==> #[trigger] f.morning_encounters@[k].level == hgss_encode(f)[8 + k] && f.morning_encounters@[k].species == u16_at(hgss_encode(f), 20 + 2 * k) as u32,
        forall|k: int| 0 <= k < 12 ==> #[trigger] f.day_encounters@[k] == u16_at(hgss_encode(f), 44 + 2 * k) as u32,
        forall|k: int| 0 <= k < 12 ==> #[trigger] f.night_encounters@[k] == u16_at(hgss_encode(f), 68 + 2 * k) as u32,
        forall|k: int| 0 <= k < 4 ==> #[trigger] f.swarm_encounters@[k] == u16_at(hgss_encode(f), 92 + 2 * k) as u32,
        forall|k: int| 0 <= k < 4 ==> #[trigger] f.music_encounters@[k] == u16_at(hgss_encode(f), 100 + 2 * k) as u32,
        forall|k: int| 0 <= k < 5 ==> #[trigger] f.surf_encounters@[k].min_level == hgss_encode(f)[108 + 4 * k] && f.surf_encounters@[k].max_level == hgss_encode(f)[109 + 4 * k] && f.surf_encounters@[k].species == u16_at(hgss_encode(f), 110 + 4 * k) as u32,
        forall|k: int| 0 <= k < 2 ==> #[trigger] f.rock_smash_encounters@[k].min_level == hgss_encode(f)[128 + 4 * k] && f.rock_smash_encounters@[k].max_level == hgss_encode(f)[129 + 4 * k] && f.rock_smash_encounters@[k].species == u16_at(hgss_encode(f), 130 + 4 * k) as u32,
        forall|k: int| 0 <= k < 5 ==> #[trigger] f.old_rod_encounters@[k].min_level == hgss_encode(f)[136 + 4 * k] && f.old_rod_encounters@[k].max_level == hgss_encode(f)[137 + 4 * k] && f.old_rod_encounters@[k].species == u16_at(hgss_encode(f), 138 + 4 * k) as u32,
        forall|k: int| 0 <= k < 5 ==> #[trigger] f.good_rod_encounters@[k].min_level == hgss_encode(f)[156 + 4 * k] && f.good_rod_encounters@[k].max_level == hgss_encode(f)[157 + 4 * k] && f.good_rod_encounters@[k].species == u16_at(hgss_encode(f), 158 + 4 * k) as u32,
        forall|k: int| 0 <= k < 5 ==> #[trigger] f.super_rod_encounters@[k].min_level == hgss_encode(f)[176 + 4 * k] && f.super_rod_encounters@[k].max_level == hgss_encode(f)[177 + 4 * k] && f.super_rod_encounters@[k].species == u16_at(hgss_encode(f), 178 + 4 * k) as u32,
{
    let e = hgss_encode(f);
    lemma_hgss_encoded(f);
    u16_pins(e, 44, f.day_encounters@, 12);
    u16_pins(e, 68, f.night_encounters@, 12);
    u16_pins(e, 92, f.swarm_encounters@, 4);
    u16_pins(e, 100, f.music_encounters@, 4);
    hgss_water_pins(e, 108, f.surf_encounters@, 5);
    hgss_water_pins(e, 128, f.rock_smash_encounters@, 2);
    hgss_water_pins(e, 136, f.old_rod_encounters@, 5);
    hgss_water_pins(e, 156, f.good_rod_encounters@, 5);
    hgss_water_pins(e, 176, f.super_rod_encounters@, 5);
}

} // verus!
