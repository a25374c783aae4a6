//! Level-up learnsets.
//!
//! A learnset is a stream of little-endian `u16` words, each packing a move
//! (low 9 bits) and the level it is learned at (next 7 bits), ended by
//! `0xFFFF`.
use vstd::prelude::*;
use crate::bytes::{read_u16, push_u16, enc_words, word_at, words_of, terminated_at,
    has_terminator, lemma_enc_words, lemma_terminator_unique};
use crate::error::{UxieError, ErrorKind};

verus! {

pub const LEARNSET_TERMINATOR: u16 = 0xFFFF;

/// One move learned at a level.
#[derive(Debug, Clone, Copy, PartialEq, Eq, Structural)]
pub struct LearnsetEntry {
    pub move_id: u16,
    pub level: u8,
}

/// The packed word of an entry: 9 bits of move, 7 bits of level.
pub open spec fn pack(move_id: u16, level: u8) -> u16 {
    ((move_id % 512) + (level % 128) * 512) as u16
}

/// The entry a packed word holds.
pub open spec fn unpack(packed: u16) -> LearnsetEntry {
    LearnsetEntry { move_id: (packed % 512) as u16, level: (packed / 512) as u8 }
}

impl LearnsetEntry {
    pub fn new(move_id: u16, level: u8) -> (e: Self)
        ensures
            e == (LearnsetEntry { move_id, level }),
    {
        Self { move_id, level }
    }

    /// Unpack a word: move in bits 0..9, level in bits 9..16.
    pub fn from_packed(packed: u16) -> (e: Self)
        ensures
            e == unpack(packed),
    {
        let move_id = packed & 0x1FF;
        let level = ((packed >> 9) & 0x7F) as u8;
        assert(packed & 0x1FF == packed % 512) by (bit_vector);
        assert((packed >> 9) & 0x7F == packed / 512) by (bit_vector);
        Self { move_id, level }
    }

    /// Pack an entry; bits of the move above 9 and of the level above 7 are dropped.
    pub fn to_packed(&self) -> (p: u16)
        ensures
            p == pack(self.move_id, self.level),
    {
        let m = self.move_id;
        let l = self.level as u16;
        assert((m & 0x1FF) | ((l & 0x7F) << 9) == (m % 512) + (l % 128) * 512) by (bit_vector)
            requires l < 256;
        (self.move_id & 0x1FF) | ((self.level as u16 & 0x7F) << 9)
    }
}

/// Law: packing and unpacking are inverse — every word unpacks to an entry
/// that packs back to it, and every entry with a move below 512 and a level
/// below 128 packs to a word that unpacks to it.
pub proof fn learnset_pack_roundtrip(e: LearnsetEntry, p: u16)
    ensures
        pack(unpack(p).move_id, unpack(p).level) == p,
        e.move_id < 512 && e.level < 128 ==> unpack(pack(e.move_id, e.level)) == e,
{
    assert(p == (p % 512) + (p / 512) * 512);
    if e.move_id < 512 && e.level < 128 {
        let q = pack(e.move_id, e.level) as int;
        assert(q == e.move_id + e.level * 512);
        assert(q % 512 == e.move_id as int) by (nonlinear_arith)
            requires q == e.move_id + e.level * 512, e.move_id < 512;
        assert(q / 512 == e.level as int) by (nonlinear_arith)
            requires q == e.move_id + e.level * 512, e.move_id < 512;
    }
}

/// The moves of a species in learn order.
#[derive(Debug, Clone, PartialEq, Eq, Default)]
pub struct LearnsetData {
    pub entries: Vec<LearnsetEntry>,
}

/// The bytes of a learnset: packed words, then the terminator.
pub open spec fn learnset_encode(es: Seq<LearnsetEntry>) -> Seq<u8> {
    enc_words(es.map_values(|e: LearnsetEntry| pack(e.move_id, e.level)).push(LEARNSET_TERMINATOR))
}

/// The entries of a learnset whose words before the terminator are `ws`.
pub open spec fn learnset_decode(ws: Seq<u16>) -> Seq<LearnsetEntry> {
    ws.map_values(|w: u16| unpack(w))
}

/// An entry survives packing and is not the terminator word.
pub open spec fn learnset_entry_ok(e: LearnsetEntry) -> bool {
    e.move_id < 512 && e.level < 128 && !(e.move_id == 511 && e.level == 127)
}

impl LearnsetData {
    /// Read a learnset: packed words up to the terminator.
    pub fn from_binary(data: &[u8]) -> (r: Result<Self, UxieError>)
        ensures
            match r {
                Ok(d) => exists|n: nat|
                    #[trigger] terminated_at(data@, n) && d.entries@ == learnset_decode(
                        words_of(data@, n),
                    ),
                Err(e) => !has_terminator(data@) && e.spec_kind() == ErrorKind::UnexpectedEof,
            },
    {
        let mut entries: Vec<LearnsetEntry> = Vec::new();
        let mut off: usize = 0;
        loop
            invariant
                off % 2 == 0,
                off <= data@.len(),
                entries@ == learnset_decode(words_of(data@, (off / 2) as nat)),
                forall|k: int| 0 <= k < off / 2 ==> word_at(data@, k) != 0xFFFF,
            decreases data@.len() - off,
        {
            if data.len() - off < 2 {
                proof {
                    assert forall|n: nat| !(#[trigger] terminated_at(data@, n)) by {
                        if terminated_at(data@, n) && n >= off / 2 {
                            assert(2 * n + 2 > data@.len());
                        }
                    }
                }
                return Err(UxieError::unexpected_eof());
            }
            let packed = read_u16(data, off);
            if packed == LEARNSET_TERMINATOR {
                assert(terminated_at(data@, (off / 2) as nat));
                return Ok(Self { entries });
            }
            entries.push(LearnsetEntry::from_packed(packed));
            off = off + 2;
            assert(entries@ =~= learnset_decode(words_of(data@, (off / 2) as nat)));
        }
    }

    /// Append the packed words of all entries, then the terminator.
    pub fn to_binary(&self, out: &mut Vec<u8>)
        ensures
            final(out)@ == old(out)@ + learnset_encode(self.entries@),
    {
        let ghost start = out@;
        let ghost ws = self.entries@.map_values(|e: LearnsetEntry| pack(e.move_id, e.level));
        let mut i: usize = 0;
        while i < self.entries.len()
            invariant
                i <= self.entries@.len(),
                ws == self.entries@.map_values(|e: LearnsetEntry| pack(e.move_id, e.level)),
                out@ == start + enc_words(ws.take(i as int)),
            decreases self.entries@.len() - i,
        {
            push_u16(out, self.entries[i].to_packed());
            assert(ws.take(i + 1).drop_last() =~= ws.take(i as int));
            i = i + 1;
        }
        push_u16(out, LEARNSET_TERMINATOR);
        assert(ws.take(i as int) =~= ws);
        assert(ws.push(LEARNSET_TERMINATOR).drop_last() =~= ws);
    }

    /// The learnset as bytes.
    pub fn to_bytes(&self) -> (bytes: Vec<u8>)
        ensures
            bytes@ == learnset_encode(self.entries@),
    {
        let mut buf = Vec::new();
        self.to_binary(&mut buf);
        assert(buf@ =~= Seq::<u8>::empty() + learnset_encode(self.entries@));
        buf
    }

    /// Entries learned at or below `level`, in order.
    pub fn moves_at_level(&self, level: u8) -> (r: Vec<LearnsetEntry>)
        ensures
            r@ == self.entries@.filter(|e: LearnsetEntry| e.level <= level),
    {
        let mut r: Vec<LearnsetEntry> = Vec::new();
        let mut i: usize = 0;
        while i < self.entries.len()
            invariant
                i <= self.entries@.len(),
                r@ == self.entries@.take(i as int).filter(|e: LearnsetEntry| e.level <= level),
            decreases self.entries@.len() - i,
        {
            let e = self.entries[i];
            proof {
                reveal_with_fuel(Seq::<_>::filter, 1);
                assert(self.entries@.take(i + 1).drop_last() =~= self.entries@.take(i as int));
            }
            if e.level <= level {
                r.push(e);
            }
            i = i + 1;
        }
        assert(self.entries@.take(i as int) =~= self.entries@);
        r
    }

    /// Entries learned exactly at `level`, in order.
    pub fn moves_learned_at(&self, level: u8) -> (r: Vec<LearnsetEntry>)
        ensures
            r@ == self.entries@.filter(|e: LearnsetEntry| e.level == level),
    {
        let mut r: Vec<LearnsetEntry> = Vec::new();
        let mut i: usize = 0;
        while i < self.entries.len()
            invariant
                i <= self.entries@.len(),
                r@ == self.entries@.take(i as int).filter(|e: LearnsetEntry| e.level == level),
            decreases self.entries@.len() - i,
        {
            let e = self.entries[i];
            proof {
                reveal_with_fuel(Seq::<_>::filter, 1);
                assert(self.entries@.take(i + 1).drop_last() =~= self.entries@.take(i as int));
            }
            if e.level == level {
                r.push(e);
            }
            i = i + 1;
        }
        assert(self.entries@.take(i as int) =~= self.entries@);
        r
    }
}

/// Law: a learnset written by `to_bytes` and read back by `from_binary` is
/// the same learnset, two bytes per entry plus the terminator — provided every
/// move is below 512, every level below 128, and no entry packs to `0xFFFF`.
pub proof fn learnset_roundtrip(es: Seq<LearnsetEntry>)
    requires
        forall|i: int| 0 <= i < es.len() ==> learnset_entry_ok(#[trigger] es[i]),
    ensures
        has_terminator(learnset_encode(es)),
        forall|n: nat| #[trigger] terminated_at(learnset_encode(es), n) ==> learnset_decode(
            words_of(learnset_encode(es), n),
        ) == es,
        learnset_encode(es).len() == 2 * (es.len() + 1),
{
    let ws = es.map_values(|e: LearnsetEntry| pack(e.move_id, e.level));
    let all = ws.push(LEARNSET_TERMINATOR);
    let bytes = learnset_encode(es);
    lemma_enc_words(all, Seq::empty());
    assert(bytes + Seq::<u8>::empty() =~= bytes);
    assert forall|k: int| 0 <= k < ws.len() implies word_at(bytes, k) != 0xFFFF && unpack(word_at(bytes, k)) == es[k] by {
        assert(word_at(bytes, k) == all[k]);
        assert(all[k] == ws[k]);
        let e = es[k];
        assert(learnset_entry_ok(e));
        learnset_pack_roundtrip(e, 0);
        if ws[k] == 0xFFFF {
            assert(unpack(ws[k]) == (LearnsetEntry { move_id: 511, level: 127 }));
        }
    }
    assert(word_at(bytes, ws.len() as int) == all[ws.len() as int]);
    assert(terminated_at(bytes, ws.len()));
    assert forall|n: nat| #[trigger] terminated_at(bytes, n) implies learnset_decode(words_of(bytes, n)) == es by {
        lemma_terminator_unique(bytes, n, ws.len());
        assert(learnset_decode(words_of(bytes, n)) =~= es);
    }
}

/// Law: a learnset is read word by word: entry `k` comes from the
/// little-endian word at byte `2k`, whose low 9 bits are the move and whose
/// high 7 bits are the level.
pub proof fn learnset_read_layout(b: Seq<u8>, n: nat, k: int)
    requires
        terminated_at(b, n),
        0 <= k < n,
    ensures
        learnset_decode(words_of(b, n))[k].move_id as int == (b[2 * k] + 256 * b[2 * k + 1]) % 512,
        learnset_decode(words_of(b, n))[k].level as int == (b[2 * k] + 256 * b[2 * k + 1]) / 512,
{
}

/// Law: writing a learnset puts entry `k` in the little-endian word at byte
/// `2k`, its move in the low 9 bits and its level in the high 7, and ends
/// with the bytes `FF FF`.
pub proof fn learnset_write_layout(es: Seq<LearnsetEntry>, k: int)
    requires
        0 <= k < es.len(),
    ensures
        learnset_encode(es).len() == 2 * es.len() + 2,
        learnset_encode(es)[2 * k] + 256 * learnset_encode(es)[2 * k + 1] == es[k].move_id % 512 + 512 * (
        es[k].level % 128),
        learnset_encode(es)[2 * es.len() as int] == 0xFF,
        learnset_encode(es)[2 * es.len() as int + 1] == 0xFF,
{
    let ws = es.map_values(|e: LearnsetEntry| pack(e.move_id, e.level));
    let all = ws.push(LEARNSET_TERMINATOR);
    let bytes = learnset_encode(es);
    lemma_enc_words(all, Seq::empty());
    assert(bytes + Seq::<u8>::empty() =~= bytes);
    assert(word_at(bytes, k) == all[k]);
    assert(word_at(bytes, es.len() as int) == all[es.len() as int]);
    let e = es[k];
    assert((e.move_id % 512) + (e.level % 128) * 512 < 65536) by (nonlinear_arith);
    let w = word_at(bytes, es.len() as int);
    assert(w == 0xFFFF);
    assert(bytes[2 * es.len() as int] + 256 * bytes[2 * es.len() as int + 1] == 0xFFFF);
}

} // verus!
