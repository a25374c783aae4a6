//! Evolution data: seven evolution slots per species.
//!
//! Each slot is three little-endian `u16` words: method, parameter and
//! target species; the file is 42 bytes. A slot of three zeros is empty.
use vstd::prelude::*;
use crate::bytes::{u16_at, enc_u16, read_u16, push_u16, lemma_u16_roundtrip, lemma_enc_u16_of_bytes};
use crate::error::{UxieError, ErrorKind};
use crate::text::{dec, push_dec, push_str};

verus! {

pub const EVOLUTIONS_PER_SPECIES: usize = 7;

pub const EVOLUTION_ENTRY_SIZE: usize = 6;

pub const EVOLUTION_FILE_SIZE: usize = 42;

/// How a species evolves; any other number is `Unknown`.
#[derive(Debug, Clone, Copy, PartialEq, Eq, Structural)]
pub enum EvolutionMethod {
    NoEvolution,
    Happiness,
    HappinessDay,
    HappinessNight,
    LevelUp,
    Trade,
    TradeWithItem,
    UseItem,
    LevelUpAtkGtDef,
    LevelUpAtkEqDef,
    LevelUpDefGtAtk,
    LevelUpPersonalityLow,
    LevelUpPersonalityHigh,
    LevelUpSpawnPokemon,
    LevelUpSpawnEmptySlot,
    Beauty,
    UseItemMale,
    UseItemFemale,
    LevelUpWithItem,
    LevelUpWithMoveType,
    LevelUpWithPartyMember,
    LevelUpMale,
    LevelUpFemale,
    LevelUpAtLocation,
    LevelUpAtMtCoronet,
    LevelUpNearMossRock,
    LevelUpNearIceRock,
    Unknown(u16),
}

/// The method a number stands for.
pub open spec fn method_of(v: u16) -> EvolutionMethod {
    if v == 0 {
        EvolutionMethod::NoEvolution
    } else if v == 1 {
        EvolutionMethod::Happiness
    } else if v == 2 {
        EvolutionMethod::HappinessDay
    } else if v == 3 {
        EvolutionMethod::HappinessNight
    } else if v == 4 {
        EvolutionMethod::LevelUp
    } else if v == 5 {
        EvolutionMethod::Trade
    } else if v == 6 {
        EvolutionMethod::TradeWithItem
    } else if v == 7 {
        EvolutionMethod::UseItem
    } else if v == 8 {
        EvolutionMethod::LevelUpAtkGtDef
    } else if v == 9 {
        EvolutionMethod::LevelUpAtkEqDef
    } else if v == 10 {
        EvolutionMethod::LevelUpDefGtAtk
    } else if v == 11 {
        EvolutionMethod::LevelUpPersonalityLow
    } else if v == 12 {
        EvolutionMethod::LevelUpPersonalityHigh
    } else if v == 13 {
        EvolutionMethod::LevelUpSpawnPokemon
    } else if v == 14 {
        EvolutionMethod::LevelUpSpawnEmptySlot
    } else if v == 15 {
        EvolutionMethod::Beauty
    } else if v == 16 {
        EvolutionMethod::UseItemMale
    } else if v == 17 {
        EvolutionMethod::UseItemFemale
    } else if v == 18 {
        EvolutionMethod::LevelUpWithItem
    } else if v == 19 {
        EvolutionMethod::LevelUpWithMoveType
    } else if v == 20 {
        EvolutionMethod::LevelUpWithPartyMember
    } else if v == 21 {
        EvolutionMethod::LevelUpMale
    } else if v == 22 {
        EvolutionMethod::LevelUpFemale
    } else if v == 23 {
        EvolutionMethod::LevelUpAtLocation
    } else if v == 24 {
        EvolutionMethod::LevelUpAtMtCoronet
    } else if v == 25 {
        EvolutionMethod::LevelUpNearMossRock
    } else if v == 26 {
        EvolutionMethod::LevelUpNearIceRock
    } else {
        EvolutionMethod::Unknown(v)
    }
}

impl From<u16> for EvolutionMethod {
    fn from(v: u16) -> (m: Self) {
            if v == 0 {
            EvolutionMethod::NoEvolution
        } else if v == 1 {
            EvolutionMethod::Happiness
        } else if v == 2 {
            EvolutionMethod::HappinessDay
        } else if v == 3 {
            EvolutionMethod::HappinessNight
        } else if v == 4 {
            EvolutionMethod::LevelUp
        } else if v == 5 {
            EvolutionMethod::Trade
        } else if v == 6 {
            EvolutionMethod::TradeWithItem
        } else if v == 7 {
            EvolutionMethod::UseItem
        } else if v == 8 {
            EvolutionMethod::LevelUpAtkGtDef
        } else if v == 9 {
            EvolutionMethod::LevelUpAtkEqDef
        } else if v == 10 {
            EvolutionMethod::LevelUpDefGtAtk
        } else if v == 11 {
            EvolutionMethod::LevelUpPersonalityLow
        } else if v == 12 {
            EvolutionMethod::LevelUpPersonalityHigh
        } else if v == 13 {
            EvolutionMethod::LevelUpSpawnPokemon
        } else if v == 14 {
            EvolutionMethod::LevelUpSpawnEmptySlot
        } else if v == 15 {
            EvolutionMethod::Beauty
        } else if v == 16 {
            EvolutionMethod::UseItemMale
        } else if v == 17 {
            EvolutionMethod::UseItemFemale
        } else if v == 18 {
            EvolutionMethod::LevelUpWithItem
        } else if v == 19 {
            EvolutionMethod::LevelUpWithMoveType
        } else if v == 20 {
            EvolutionMethod::LevelUpWithPartyMember
        } else if v == 21 {
            EvolutionMethod::LevelUpMale
        } else if v == 22 {
            EvolutionMethod::LevelUpFemale
        } else if v == 23 {
            EvolutionMethod::LevelUpAtLocation
        } else if v == 24 {
            EvolutionMethod::LevelUpAtMtCoronet
        } else if v == 25 {
            EvolutionMethod::LevelUpNearMossRock
        } else if v == 26 {
            EvolutionMethod::LevelUpNearIceRock
        } else {
            EvolutionMethod::Unknown(v)
        }
    }
}

impl vstd::std_specs::convert::FromSpecImpl<u16> for EvolutionMethod {
    open spec fn obeys_from_spec() -> bool {
        true
    }

    open spec fn from_spec(v: u16) -> EvolutionMethod {
        method_of(v)
    }
}

/// The name a method is displayed with.
pub open spec fn method_name(m: EvolutionMethod) -> Seq<char> {
    match m {
        EvolutionMethod::NoEvolution => "None"@,
        EvolutionMethod::Happiness => "Happiness"@,
        EvolutionMethod::HappinessDay => "HappinessDay"@,
        EvolutionMethod::HappinessNight => "HappinessNight"@,
        EvolutionMethod::LevelUp => "LevelUp"@,
        EvolutionMethod::Trade => "Trade"@,
        EvolutionMethod::TradeWithItem => "TradeWithItem"@,
        EvolutionMethod::UseItem => "UseItem"@,
        EvolutionMethod::LevelUpAtkGtDef => "LevelUpAtkGtDef"@,
        EvolutionMethod::LevelUpAtkEqDef => "LevelUpAtkEqDef"@,
        EvolutionMethod::LevelUpDefGtAtk => "LevelUpDefGtAtk"@,
        EvolutionMethod::LevelUpPersonalityLow => "LevelUpPersonalityLow"@,
        EvolutionMethod::LevelUpPersonalityHigh => "LevelUpPersonalityHigh"@,
        EvolutionMethod::LevelUpSpawnPokemon => "LevelUpSpawnPokemon"@,
        EvolutionMethod::LevelUpSpawnEmptySlot => "LevelUpSpawnEmptySlot"@,
        EvolutionMethod::Beauty => "Beauty"@,
        EvolutionMethod::UseItemMale => "UseItemMale"@,
        EvolutionMethod::UseItemFemale => "UseItemFemale"@,
        EvolutionMethod::LevelUpWithItem => "LevelUpWithItem"@,
        EvolutionMethod::LevelUpWithMoveType => "LevelUpWithMoveType"@,
        EvolutionMethod::LevelUpWithPartyMember => "LevelUpWithPartyMember"@,
        EvolutionMethod::LevelUpMale => "LevelUpMale"@,
        EvolutionMethod::LevelUpFemale => "LevelUpFemale"@,
        EvolutionMethod::LevelUpAtLocation => "LevelUpAtLocation"@,
        EvolutionMethod::LevelUpAtMtCoronet => "LevelUpAtMtCoronet"@,
        EvolutionMethod::LevelUpNearMossRock => "LevelUpNearMossRock"@,
        EvolutionMethod::LevelUpNearIceRock => "LevelUpNearIceRock"@,
        EvolutionMethod::Unknown(n) => "Unknown("@ + dec(n as nat) + ")"@,
    }
}

impl EvolutionMethod {
    /// The name this method is displayed with (`Unknown(n)` for other numbers).
    pub fn to_display_string(&self) -> (s: String)
        ensures
            s@ == method_name(*self),
    {
        let mut s = String::new();
        match self {
            EvolutionMethod::NoEvolution => push_str(&mut s, "None"),
            EvolutionMethod::Happiness => push_str(&mut s, "Happiness"),
            EvolutionMethod::HappinessDay => push_str(&mut s, "HappinessDay"),
            EvolutionMethod::HappinessNight => push_str(&mut s, "HappinessNight"),
            EvolutionMethod::LevelUp => push_str(&mut s, "LevelUp"),
            EvolutionMethod::Trade => push_str(&mut s, "Trade"),
            EvolutionMethod::TradeWithItem => push_str(&mut s, "TradeWithItem"),
            EvolutionMethod::UseItem => push_str(&mut s, "UseItem"),
            EvolutionMethod::LevelUpAtkGtDef => push_str(&mut s, "LevelUpAtkGtDef"),
            EvolutionMethod::LevelUpAtkEqDef => push_str(&mut s, "LevelUpAtkEqDef"),
            EvolutionMethod::LevelUpDefGtAtk => push_str(&mut s, "LevelUpDefGtAtk"),
            EvolutionMethod::LevelUpPersonalityLow => push_str(&mut s, "LevelUpPersonalityLow"),
            EvolutionMethod::LevelUpPersonalityHigh => push_str(&mut s, "LevelUpPersonalityHigh"),
            EvolutionMethod::LevelUpSpawnPokemon => push_str(&mut s, "LevelUpSpawnPokemon"),
            EvolutionMethod::LevelUpSpawnEmptySlot => push_str(&mut s, "LevelUpSpawnEmptySlot"),
            EvolutionMethod::Beauty => push_str(&mut s, "Beauty"),
            EvolutionMethod::UseItemMale => push_str(&mut s, "UseItemMale"),
            EvolutionMethod::UseItemFemale => push_str(&mut s, "UseItemFemale"),
            EvolutionMethod::LevelUpWithItem => push_str(&mut s, "LevelUpWithItem"),
            EvolutionMethod::LevelUpWithMoveType => push_str(&mut s, "LevelUpWithMoveType"),
            EvolutionMethod::LevelUpWithPartyMember => push_str(&mut s, "LevelUpWithPartyMember"),
            EvolutionMethod::LevelUpMale => push_str(&mut s, "LevelUpMale"),
            EvolutionMethod::LevelUpFemale => push_str(&mut s, "LevelUpFemale"),
            EvolutionMethod::LevelUpAtLocation => push_str(&mut s, "LevelUpAtLocation"),
            EvolutionMethod::LevelUpAtMtCoronet => push_str(&mut s, "LevelUpAtMtCoronet"),
            EvolutionMethod::LevelUpNearMossRock => push_str(&mut s, "LevelUpNearMossRock"),
            EvolutionMethod::LevelUpNearIceRock => push_str(&mut s, "LevelUpNearIceRock"),
            EvolutionMethod::Unknown(n) => {
                push_str(&mut s, "Unknown(");
                push_dec(&mut s, *n as u64);
                push_str(&mut s, ")");
            },
        }
        assert(s@ =~= method_name(*self));
        s
    }
}
/// One evolution slot.
#[derive(Debug, Clone, Copy, PartialEq, Eq, Default, Structural)]
pub struct EvolutionEntry {
    pub method: u16,
    pub param: u16,
    pub target_species: u16,
}

/// A slot of three zeros.
pub open spec fn entry_empty(e: EvolutionEntry) -> bool {
    e.method == 0 && e.param == 0 && e.target_species == 0
}

impl EvolutionEntry {
    /// All three words are zero.
    pub fn is_empty(&self) -> (b: bool)
        ensures
            b == entry_empty(*self),
    {
        self.method == 0 && self.param == 0 && self.target_species == 0
    }
}

/// The seven evolution slots of a species.
#[derive(Debug, Clone, PartialEq, Eq)]
pub struct EvolutionData {
    pub entries: [EvolutionEntry; 7],
}

impl Default for EvolutionData {
    fn default() -> (d: Self)
        ensures
            forall|i: int| 0 <= i < 7 ==> entry_empty(#[trigger] d.entries@[i]),
    {
        let e = EvolutionEntry { method: 0, param: 0, target_species: 0 };
        EvolutionData { entries: [e, e, e, e, e, e, e] }
    }
}

/// The six bytes of a slot.
pub open spec fn entry_bytes(e: EvolutionEntry) -> Seq<u8> {
    enc_u16(e.method) + enc_u16(e.param) + enc_u16(e.target_species)
}

/// The bytes of consecutive slots.
pub open spec fn entries_bytes(es: Seq<EvolutionEntry>) -> Seq<u8>
    decreases es.len(),
{
    if es.len() == 0 {
        Seq::empty()
    } else {
        entries_bytes(es.drop_last()) + entry_bytes(es.last())
    }
}

/// The slot stored at byte `6 * k`.
pub open spec fn entry_at(b: Seq<u8>, k: int) -> EvolutionEntry {
    EvolutionEntry {
        method: u16_at(b, 6 * k),
        param: u16_at(b, 6 * k + 2),
        target_species: u16_at(b, 6 * k + 4),
    }
}

/// The seven slots the first 42 bytes hold.
pub open spec fn evo_decode(b: Seq<u8>) -> Seq<EvolutionEntry> {
    Seq::new(7, |k: int| entry_at(b, k))
}

proof fn lemma_entries_bytes(es: Seq<EvolutionEntry>, rest: Seq<u8>)
    ensures
        entries_bytes(es).len() == 6 * es.len(),
        forall|k: int| 0 <= k < es.len() ==> #[trigger] entry_at(entries_bytes(es) + rest, k) == es[k],
    decreases es.len(),
{
    if es.len() > 0 {
        let pre = es.drop_last();
        let e = es.last();
        let tail = entry_bytes(e) + rest;
        lemma_entries_bytes(pre, tail);
        let p = entries_bytes(pre);
        assert(entries_bytes(es) + rest =~= p + tail);
        lemma_u16_roundtrip(p, e.method, enc_u16(e.param) + enc_u16(e.target_species) + rest);
        assert(p + enc_u16(e.method) + (enc_u16(e.param) + enc_u16(e.target_species) + rest) =~= p + tail);
        lemma_u16_roundtrip(p + enc_u16(e.method), e.param, enc_u16(e.target_species) + rest);
        assert(p + enc_u16(e.method) + enc_u16(e.param) + (enc_u16(e.target_species) + rest) =~= p + tail);
        lemma_u16_roundtrip(p + enc_u16(e.method) + enc_u16(e.param), e.target_species, rest);
        assert(p + enc_u16(e.method) + enc_u16(e.param) + enc_u16(e.target_species) + rest =~= p + tail);
        assert(entry_at(p + tail, pre.len() as int) == e);
        assert forall|k: int| 0 <= k < es.len() implies #[trigger] entry_at(entries_bytes(es) + rest, k) == es[k] by {
            if k < pre.len() {
                assert(entry_at(p + tail, k) == pre[k]);
            }
        }
    }
}

proof fn lemma_decoded_bytes(b: Seq<u8>, n: nat)
    requires
        6 * n <= b.len(),
    ensures
        entries_bytes(Seq::new(n, |k: int| entry_at(b, k))) == b.subrange(0, 6 * n as int),
    decreases n,
{
    let es = Seq::new(n, |k: int| entry_at(b, k));
    if n > 0 {
        let m = (n - 1) as nat;
        lemma_decoded_bytes(b, m);
        assert(es.drop_last() =~= Seq::new(m, |k: int| entry_at(b, k)));
        let i = 6 * m as int;
        lemma_enc_u16_of_bytes(b[i], b[i + 1]);
        lemma_enc_u16_of_bytes(b[i + 2], b[i + 3]);
        lemma_enc_u16_of_bytes(b[i + 4], b[i + 5]);
        assert(entry_bytes(es.last()) =~= b.subrange(i, i + 6));
        assert(b.subrange(0, i) + b.subrange(i, i + 6) =~= b.subrange(0, 6 * n as int));
    } else {
        assert(es =~= Seq::<EvolutionEntry>::empty());
        assert(b.subrange(0, 0) =~= Seq::<u8>::empty());
    }
}

impl EvolutionData {
    /// Read the seven slots from the start of `data`.
    pub fn from_binary(data: &[u8]) -> (r: Result<Self, UxieError>)
        ensures
            data@.len() >= EVOLUTION_FILE_SIZE ==> (r matches Ok(d) && d.entries@ == evo_decode(
                data@,
            )),
            data@.len() < EVOLUTION_FILE_SIZE ==> (r matches Err(e) && e.spec_kind()
                == ErrorKind::InvalidData),
    {
        if data.len() < EVOLUTION_FILE_SIZE {
            return Err(UxieError::invalid_data(String::from_str("failed to fill whole buffer")));
        }
        let mut d = EvolutionData::default();
        let mut k: usize = 0;
        while k < EVOLUTIONS_PER_SPECIES
            invariant
                k <= 7,
                data@.len() >= 42,
                d.entries@.len() == 7,
                forall|j: int| 0 <= j < k ==> #[trigger] d.entries@[j] == entry_at(data@, j),
            decreases 7 - k,
        {
            let e = EvolutionEntry {
                method: read_u16(data, 6 * k),
                param: read_u16(data, 6 * k + 2),
                target_species: read_u16(data, 6 * k + 4),
            };
            d.entries.set(k, e);
            k = k + 1;
        }
        assert(d.entries@ =~= evo_decode(data@));
        Ok(d)
    }

    /// Append the 42 bytes of the seven slots.
    pub fn to_binary(&self, out: &mut Vec<u8>)
        ensures
            final(out)@ == old(out)@ + entries_bytes(self.entries@),
    {
        let ghost start = out@;
        let mut k: usize = 0;
        while k < EVOLUTIONS_PER_SPECIES
            invariant
                k <= 7,
                self.entries@.len() == 7,
                out@ == start + entries_bytes(self.entries@.take(k as int)),
            decreases 7 - k,
        {
            let e = self.entries[k];
            push_u16(out, e.method);
            push_u16(out, e.param);
            push_u16(out, e.target_species);
            assert(self.entries@.take(k + 1).drop_last() =~= self.entries@.take(k as int));
            k = k + 1;
            assert(out@ =~= start + entries_bytes(self.entries@.take(k as int)));
        }
        assert(self.entries@.take(7) =~= self.entries@);
    }

    /// The 42 bytes of the seven slots.
    pub fn to_bytes(&self) -> (bytes: Vec<u8>)
        ensures
            bytes@ == entries_bytes(self.entries@),
            bytes@.len() == EVOLUTION_FILE_SIZE,
    {
        let mut out: Vec<u8> = Vec::new();
        self.to_binary(&mut out);
        proof {
            lemma_entries_bytes(self.entries@, Seq::empty());
        }
        assert(out@ =~= entries_bytes(self.entries@));
        out
    }

    /// The slots that are not empty, in order.
    pub fn active_evolutions(&self) -> (r: Vec<EvolutionEntry>)
        ensures
            r@ == self.entries@.filter(|e: EvolutionEntry| !entry_empty(e)),
    {
        let mut r: Vec<EvolutionEntry> = Vec::new();
        let mut k: usize = 0;
        while k < EVOLUTIONS_PER_SPECIES
            invariant
                k <= 7,
                self.entries@.len() == 7,
                r@ == self.entries@.take(k as int).filter(|e: EvolutionEntry| !entry_empty(e)),
            decreases 7 - k,
        {
            let e = self.entries[k];
            proof {
                reveal_with_fuel(Seq::<_>::filter, 1);
                assert(self.entries@.take(k + 1).drop_last() =~= self.entries@.take(k as int));
            }
            if !e.is_empty() {
                r.push(e);
            }
            k = k + 1;
        }
        assert(self.entries@.take(7) =~= self.entries@);
        r
    }
}

/// Law: seven slots written by `to_bytes` and read back by `from_binary`
/// are the same slots, in 42 bytes.
pub proof fn evolution_roundtrip(es: Seq<EvolutionEntry>)
    requires
        es.len() == 7,
    ensures
        entries_bytes(es).len() == EVOLUTION_FILE_SIZE,
        evo_decode(entries_bytes(es)) == es,
{
    lemma_entries_bytes(es, Seq::empty());
    assert(entries_bytes(es) + Seq::<u8>::empty() =~= entries_bytes(es));
    assert(evo_decode(entries_bytes(es)) =~= es);
}

/// Law: 42 bytes read by `from_binary` and written again are the same bytes.
pub proof fn evolution_bytes_roundtrip(b: Seq<u8>)
    requires
        b.len() >= EVOLUTION_FILE_SIZE,
    ensures
        entries_bytes(evo_decode(b)) == b.subrange(0, 42),
{
    lemma_decoded_bytes(b, 7);
    assert(evo_decode(b) =~= Seq::new(7, |k: int| entry_at(b, k)));
}

/// Law: the file is seven 6-byte slots, slot `k` at byte `6k`; a slot is its
/// method, its parameter and its target species, in that order, each a
/// little-endian `u16`. Reading takes each field from its place, and writing
/// puts each field there.
pub proof fn evolution_layout(b: Seq<u8>, es: Seq<EvolutionEntry>, k: int)
    requires
        b.len() >= EVOLUTION_FILE_SIZE,
        es.len() == 7,
        0 <= k < 7,
    ensures
        evo_decode(b)[k].method == u16_at(b, 6 * k),
        evo_decode(b)[k].param == u16_at(b, 6 * k + 2),
        evo_decode(b)[k].target_species == u16_at(b, 6 * k + 4),
        entries_bytes(es).subrange(6 * k, 6 * k + 6) == enc_u16(es[k].method) + enc_u16(es[k].param) + enc_u16(
            es[k].target_species,
        ),
{
    let eb = entries_bytes(es);
    lemma_entries_bytes(es, Seq::empty());
    assert(eb + Seq::<u8>::empty() =~= eb);
    assert(entry_at(eb, k) == es[k]);
    let i = 6 * k;
    lemma_enc_u16_of_bytes(eb[i], eb[i + 1]);
    lemma_enc_u16_of_bytes(eb[i + 2], eb[i + 3]);
    lemma_enc_u16_of_bytes(eb[i + 4], eb[i + 5]);
    assert(eb.subrange(i, i + 6) =~= enc_u16(u16_at(eb, i)) + enc_u16(u16_at(eb, i + 2)) + enc_u16(u16_at(eb, i + 4)));
}

} // verus!
