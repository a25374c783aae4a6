//! Item data: the 34-byte record of one item.
//!
//! Layout, little-endian: price (`u16`); hold effect, its parameter, pluck
//! effect, fling effect, fling power, natural gift power (bytes); a 16-bit
//! word of packed fields (natural gift type: bits 0..5, prevent toss: bit 5,
//! selectable: bit 6, field pocket: bits 7..11, battle pocket: bits 11..16);
//! field use function, battle use function, party use (bytes); one pad
//! byte; seven bytes of party use flags; eleven bytes of party use values;
//! two pad bytes.
use vstd::prelude::*;
use crate::bytes::{u16_at, i8_of, u8_of, enc_u16, read_u16, push_u16, to_i8, from_i8,
    lemma_u16_roundtrip, lemma_enc_u16_of_bytes};
use crate::error::{UxieError, ErrorKind};
use crate::text::{dec, push_dec, push_str};

verus! {

pub const ITEM_DATA_SIZE: usize = 34;

/// Bit of `BattlePocket`: Poké Balls.
pub const POKE_BALLS: u8 = 0x01;

/// Bit of `BattlePocket`: battle items.
pub const BATTLE_ITEMS: u8 = 0x02;

/// Bit of `BattlePocket`: HP restoring items.
pub const HP_RESTORE: u8 = 0x04;

/// Bit of `BattlePocket`: status healers.
pub const STATUS_HEALERS: u8 = 0x08;

/// Bit of `BattlePocket`: PP restoring items.
pub const PP_RESTORE: u8 = 0x10;

/// The pockets of the battle bag an item shows in.
#[derive(Debug, Clone, Copy, PartialEq, Eq, Structural)]
pub struct BattlePocket {
    pub bits: u8,
}

impl BattlePocket {
    pub fn empty() -> (p: Self)
        ensures
            p.bits == 0,
    {
        BattlePocket { bits: 0 }
    }

    /// The pockets of `bits`, or `None` when a bit above the five defined
    /// ones is set.
    pub fn from_bits(bits: u8) -> (r: Option<Self>)
        ensures
            bits < 32 ==> r == Some(BattlePocket { bits }),
            bits >= 32 ==> r is None,
    {
        if bits < 32 {
            Some(BattlePocket { bits })
        } else {
            None
        }
    }

    pub fn bits(&self) -> (b: u8)
        ensures
            b == self.bits,
    {
        self.bits
    }

    /// Every pocket of `other` is set here.
    pub fn contains(&self, other: BattlePocket) -> (b: bool)
        ensures
            b == (self.bits & other.bits == other.bits),
    {
        self.bits & other.bits == other.bits
    }

    /// The pockets of both.
    pub fn union(&self, other: BattlePocket) -> (p: BattlePocket)
        ensures
            p.bits == self.bits | other.bits,
    {
        BattlePocket { bits: self.bits | other.bits }
    }
}

/// The pocket of the field bag an item is stored in.
#[derive(Debug, Clone, Copy, PartialEq, Eq, Structural)]
pub enum FieldPocket {
    Items,
    Medicine,
    Balls,
    TmHms,
    Berries,
    Mail,
    BattleItems,
    KeyItems,
}

/// The pocket numbered `v` (0..=7).
pub open spec fn pocket_of(v: int) -> Option<FieldPocket> {
    if v == 0 {
        Some(FieldPocket::Items)
    } else if v == 1 {
        Some(FieldPocket::Medicine)
    } else if v == 2 {
        Some(FieldPocket::Balls)
    } else if v == 3 {
        Some(FieldPocket::TmHms)
    } else if v == 4 {
        Some(FieldPocket::Berries)
    } else if v == 5 {
        Some(FieldPocket::Mail)
    } else if v == 6 {
        Some(FieldPocket::BattleItems)
    } else if v == 7 {
        Some(FieldPocket::KeyItems)
    } else {
        None
    }
}

/// The number of a pocket.
pub open spec fn pocket_number(p: FieldPocket) -> u8 {
    match p {
        FieldPocket::Items => 0,
        FieldPocket::Medicine => 1,
        FieldPocket::Balls => 2,
        FieldPocket::TmHms => 3,
        FieldPocket::Berries => 4,
        FieldPocket::Mail => 5,
        FieldPocket::BattleItems => 6,
        FieldPocket::KeyItems => 7,
    }
}

impl FieldPocket {
    /// The pocket numbered `value`, if there is one.
    pub fn try_from_u8(value: u8) -> (r: Option<Self>)
        ensures
            r == pocket_of(value as int),
    {
        if value == 0 {
            Some(FieldPocket::Items)
        } else if value == 1 {
            Some(FieldPocket::Medicine)
        } else if value == 2 {
            Some(FieldPocket::Balls)
        } else if value == 3 {
            Some(FieldPocket::TmHms)
        } else if value == 4 {
            Some(FieldPocket::Berries)
        } else if value == 5 {
            Some(FieldPocket::Mail)
        } else if value == 6 {
            Some(FieldPocket::BattleItems)
        } else if value == 7 {
            Some(FieldPocket::KeyItems)
        } else {
            None
        }
    }

    /// The number of this pocket.
    pub fn to_u8(&self) -> (v: u8)
        ensures
            v == pocket_number(*self),
    {
        match self {
            FieldPocket::Items => 0,
            FieldPocket::Medicine => 1,
            FieldPocket::Balls => 2,
            FieldPocket::TmHms => 3,
            FieldPocket::Berries => 4,
            FieldPocket::Mail => 5,
            FieldPocket::BattleItems => 6,
            FieldPocket::KeyItems => 7,
        }
    }
}

impl Default for FieldPocket {
    fn default() -> (p: Self)
        ensures
            p == FieldPocket::Items,
    {
        FieldPocket::Items
    }
}

// ----- the packed 16-bit word -----

pub open spec fn bf_natural_gift_type(w: u16) -> u8 {
    (w & 0x1F) as u8
}

pub open spec fn bf_prevent_toss(w: u16) -> bool {
    (w >> 5) & 1 == 1
}

pub open spec fn bf_is_selectable(w: u16) -> bool {
    (w >> 6) & 1 == 1
}

pub open spec fn bf_field_pocket(w: u16) -> u8 {
    ((w >> 7) & 0xF) as u8
}

pub open spec fn bf_battle_pocket(w: u16) -> u8 {
    ((w >> 11) & 0x1F) as u8
}

/// The word of five fields, each within its width.
pub open spec fn bf_pack(ngt: u8, pt: bool, sel: bool, fp: u8, bp: u8) -> u16 {
    ((ngt as u16) | ((if pt { 1u16 } else { 0u16 }) << 5u16) | ((if sel { 1u16 } else { 0u16 }) << 6u16)
        | ((fp as u16) << 7u16) | ((bp as u16) << 11u16)) as u16
}

proof fn lemma_bf_unpack(ngt: u8, pt: bool, sel: bool, fp: u8, bp: u8)
    requires
        ngt < 32,
        fp < 16,
        bp < 32,
    ensures
        bf_natural_gift_type(bf_pack(ngt, pt, sel, fp, bp)) == ngt,
        bf_prevent_toss(bf_pack(ngt, pt, sel, fp, bp)) == pt,
        bf_is_selectable(bf_pack(ngt, pt, sel, fp, bp)) == sel,
        bf_field_pocket(bf_pack(ngt, pt, sel, fp, bp)) == fp,
        bf_battle_pocket(bf_pack(ngt, pt, sel, fp, bp)) == bp,
{
    let a = ngt as u16;
    let p: u16 = if pt { 1 } else { 0 };
    let s: u16 = if sel { 1 } else { 0 };
    let f = fp as u16;
    let b = bp as u16;
    assert(((a | (p << 5u16) | (s << 6u16) | (f << 7u16) | (b << 11u16)) & 0x1F) == a
        && (((a | (p << 5u16) | (s << 6u16) | (f << 7u16) | (b << 11u16)) >> 5u16) & 1) == p
        && (((a | (p << 5u16) | (s << 6u16) | (f << 7u16) | (b << 11u16)) >> 6u16) & 1) == s
        && (((a | (p << 5u16) | (s << 6u16) | (f << 7u16) | (b << 11u16)) >> 7u16) & 0xF) == f
        && (((a | (p << 5u16) | (s << 6u16) | (f << 7u16) | (b << 11u16)) >> 11u16) & 0x1F) == b)
        by (bit_vector)
        requires a < 32, p < 2, s < 2, f < 16, b < 32;
}

proof fn lemma_bf_repack(w: u16)
    ensures
        bf_pack(bf_natural_gift_type(w), bf_prevent_toss(w), bf_is_selectable(w), bf_field_pocket(w),
            bf_battle_pocket(w)) == w,
{
    let p: u16 = if (w >> 5) & 1 == 1 { 1 } else { 0 };
    let s: u16 = if (w >> 6) & 1 == 1 { 1 } else { 0 };
    assert(p == (w >> 5u16) & 1) by (bit_vector)
        requires p == (if (w >> 5u16) & 1 == 1 { 1u16 } else { 0u16 });
    assert(s == (w >> 6u16) & 1) by (bit_vector)
        requires s == (if (w >> 6u16) & 1 == 1 { 1u16 } else { 0u16 });
    assert(((w & 0x1F) | (p << 5u16) | (s << 6u16) | (((w >> 7u16) & 0xF) << 7u16) | (((w >> 11u16)
        & 0x1F) << 11u16)) == w) by (bit_vector)
        requires p == (w >> 5u16) & 1, s == (w >> 6u16) & 1;
    assert((w & 0x1F) as u8 as u16 == w & 0x1F) by (bit_vector);
    assert(((w >> 7u16) & 0xF) as u8 as u16 == (w >> 7u16) & 0xF) by (bit_vector);
    assert(((w >> 11u16) & 0x1F) as u8 as u16 == (w >> 11u16) & 0x1F) by (bit_vector);
}

/// The packed 16-bit word of an item.
#[derive(Debug, Clone, Copy, PartialEq, Eq, Structural)]
pub struct ItemBitfield {
    pub bits: u16,
}

impl ItemBitfield {
    pub fn new() -> (b: Self)
        ensures
            b.bits == 0,
    {
        ItemBitfield { bits: 0 }
    }

    pub fn from_bytes(bytes: [u8; 2]) -> (b: Self)
        ensures
            b.bits == u16_at(bytes@, 0),
    {
        ItemBitfield { bits: bytes[0] as u16 + (bytes[1] as u16) * 256 }
    }

    pub fn into_bytes(&self) -> (bytes: [u8; 2])
        ensures
            bytes@ == enc_u16(self.bits),
    {
        let b = [(self.bits % 256) as u8, (self.bits / 256) as u8];
        assert(b@ =~= enc_u16(self.bits));
        b
    }

    pub fn natural_gift_type(&self) -> (v: u8)
        ensures
            v == bf_natural_gift_type(self.bits),
    {
        (self.bits & 0x1F) as u8
    }

    pub fn prevent_toss(&self) -> (v: bool)
        ensures
            v == bf_prevent_toss(self.bits),
    {
        (self.bits >> 5) & 1 == 1
    }

    pub fn is_selectable(&self) -> (v: bool)
        ensures
            v == bf_is_selectable(self.bits),
    {
        (self.bits >> 6) & 1 == 1
    }

    pub fn field_pocket(&self) -> (v: u8)
        ensures
            v == bf_field_pocket(self.bits),
    {
        ((self.bits >> 7) & 0xF) as u8
    }

    pub fn battle_pocket(&self) -> (v: u8)
        ensures
            v == bf_battle_pocket(self.bits),
    {
        ((self.bits >> 11) & 0x1F) as u8
    }
}

/// The word of five fields, each within its width.
fn pack_bitfield(ngt: u8, pt: bool, sel: bool, fp: u8, bp: u8) -> (w: u16)
    requires
        ngt < 32,
        fp < 16,
        bp < 32,
    ensures
        w == bf_pack(ngt, pt, sel, fp, bp),
{
    ((ngt as u16) | ((if pt { 1u16 } else { 0u16 }) << 5u16) | ((if sel { 1u16 } else { 0u16 }) << 6u16)
        | ((fp as u16) << 7u16) | ((bp as u16) << 11u16)) as u16
}

// ----- party use -----

/// The 56 bits of party use flags, least significant bit of byte 0 first:
/// bits 0..8 heal sleep, poison, burn, freeze, paralysis, confusion,
/// attraction, Guard Spec.; 8..12 revive, revive all, level up, evolve;
/// 4-bit stage counts at 12 (attack), 16 (defense), 20 (special attack),
/// 24 (special defense), 28 (speed), 32 (accuracy); a 2-bit critical stage
/// count at 36; bits 38..52 PP Up, PP Max, PP restore, PP restore all, HP
/// restore, the six EV boosts and the three friendship boosts; 52..56
/// unused.
#[derive(Debug, Clone, Copy, PartialEq, Eq)]
pub struct ItemPartyUseFlagsBits {
    pub bytes: [u8; 7],
}

/// Bit `k` of a little-endian byte sequence.
pub open spec fn bit_of(bytes: Seq<u8>, k: int) -> bool {
    (bytes[k / 8] >> ((k % 8) as u8)) & 1 == 1
}

impl ItemPartyUseFlagsBits {
    pub fn new() -> (f: Self)
        ensures
            forall|i: int| 0 <= i < 7 ==> f.bytes@[i] == 0,
    {
        ItemPartyUseFlagsBits { bytes: [0u8, 0u8, 0u8, 0u8, 0u8, 0u8, 0u8] }
    }

    pub fn from_bytes(bytes: [u8; 7]) -> (f: Self)
        ensures
            f.bytes == bytes,
    {
        ItemPartyUseFlagsBits { bytes }
    }

    pub fn into_bytes(&self) -> (b: [u8; 7])
        ensures
            b == self.bytes,
    {
        self.bytes
    }

    /// Flag bit `k` (0..56).
    pub fn flag(&self, k: u8) -> (v: bool)
        requires
            k < 56,
        ensures
            v == bit_of(self.bytes@, k as int),
    {
        (self.bytes[(k / 8) as usize] >> (k % 8)) & 1 == 1
    }

    /// The same flags with bit `k` (0..56) set to `v`.
    pub fn with_flag(&self, k: u8, v: bool) -> (f: Self)
        requires
            k < 56,
        ensures
            bit_of(f.bytes@, k as int) == v,
            forall|j: int| 0 <= j < 56 && j != k ==> bit_of(f.bytes@, j) == bit_of(self.bytes@, j),
    {
        let i = (k / 8) as usize;
        let m: u8 = 1u8 << (k % 8);
        let old_byte = self.bytes[i];
        let new_byte = if v { old_byte | m } else { old_byte & !m };
        let mut bytes = self.bytes;
        bytes.set(i, new_byte);
        proof {
            let s = (k % 8) as u8;
            assert(s < 8);
            assert((new_byte >> s) & 1 == (if v { 1u8 } else { 0u8 })) by (bit_vector)
                requires m == 1u8 << s, s < 8, new_byte == (if v { old_byte | m } else { old_byte & !m });
            assert forall|j: int| 0 <= j < 56 && j != k implies bit_of(bytes@, j) == bit_of(self.bytes@, j) by {
                if j / 8 == i as int {
                    let t = (j % 8) as u8;
                    assert(t != s);
                    assert((new_byte >> t) & 1 == (old_byte >> t) & 1) by (bit_vector)
                        requires m == 1u8 << s, s < 8, t < 8, t != s, new_byte == (if v { old_byte | m } else { old_byte & !m });
                }
            }
        }
        ItemPartyUseFlagsBits { bytes }
    }
}

/// The scalar values of party use (11 bytes).
#[derive(Debug, Clone, Copy, PartialEq, Eq, Default, Structural)]
pub struct ItemPartyUseValues {
    pub hp_evs: i8,
    pub atk_evs: i8,
    pub def_evs: i8,
    pub speed_evs: i8,
    pub spatk_evs: i8,
    pub spdef_evs: i8,
    pub hp_restored: u8,
    pub pp_restored: u8,
    pub friendship_low: i8,
    pub friendship_med: i8,
    pub friendship_high: i8,
}

/// Party use parameters: flags and values (18 bytes).
#[derive(Debug, Clone, Copy, PartialEq, Eq)]
pub struct ItemPartyUseParam {
    flags: ItemPartyUseFlagsBits,
    values: ItemPartyUseValues,
}

impl ItemPartyUseParam {
    pub closed spec fn spec_flags(&self) -> ItemPartyUseFlagsBits {
        self.flags
    }

    pub closed spec fn spec_values(&self) -> ItemPartyUseValues {
        self.values
    }

    pub fn from_parts(flags: ItemPartyUseFlagsBits, values: ItemPartyUseValues) -> (p: Self)
        ensures
            p.spec_flags() == flags,
            p.spec_values() == values,
    {
        ItemPartyUseParam { flags, values }
    }

    pub fn to_parts(&self) -> (r: (ItemPartyUseFlagsBits, ItemPartyUseValues))
        ensures
            r.0 == self.spec_flags(),
            r.1 == self.spec_values(),
    {
        (self.flags, self.values)
    }
}

impl Default for ItemPartyUseParam {
    fn default() -> (p: Self)
        ensures
            forall|i: int| 0 <= i < 7 ==> p.spec_flags().bytes@[i] == 0,
            p.spec_values() == (ItemPartyUseValues {
                hp_evs: 0,
                atk_evs: 0,
                def_evs: 0,
                speed_evs: 0,
                spatk_evs: 0,
                spdef_evs: 0,
                hp_restored: 0,
                pp_restored: 0,
                friendship_low: 0,
                friendship_med: 0,
                friendship_high: 0,
            }),
    {
        ItemPartyUseParam {
            flags: ItemPartyUseFlagsBits::new(),
            values: ItemPartyUseValues {
                hp_evs: 0,
                atk_evs: 0,
                def_evs: 0,
                speed_evs: 0,
                spatk_evs: 0,
                spdef_evs: 0,
                hp_restored: 0,
                pp_restored: 0,
                friendship_low: 0,
                friendship_med: 0,
                friendship_high: 0,
            },
        }
    }
}

/// The eleven bytes of party use values.
pub open spec fn values_bytes(v: ItemPartyUseValues) -> Seq<u8> {
    seq![
        u8_of(v.hp_evs),
        u8_of(v.atk_evs),
        u8_of(v.def_evs),
        u8_of(v.speed_evs),
        u8_of(v.spatk_evs),
        u8_of(v.spdef_evs),
        v.hp_restored,
        v.pp_restored,
        u8_of(v.friendship_low),
        u8_of(v.friendship_med),
        u8_of(v.friendship_high),
    ]
}

/// The party use values stored from byte `o`.
pub open spec fn values_at(b: Seq<u8>, o: int) -> ItemPartyUseValues {
    ItemPartyUseValues {
        hp_evs: i8_of(b[o]),
        atk_evs: i8_of(b[o + 1]),
        def_evs: i8_of(b[o + 2]),
        speed_evs: i8_of(b[o + 3]),
        spatk_evs: i8_of(b[o + 4]),
        spdef_evs: i8_of(b[o + 5]),
        hp_restored: b[o + 6],
        pp_restored: b[o + 7],
        friendship_low: i8_of(b[o + 8]),
        friendship_med: i8_of(b[o + 9]),
        friendship_high: i8_of(b[o + 10]),
    }
}

/// The 18 bytes of party use parameters.
pub open spec fn param_bytes(p: ItemPartyUseParam) -> Seq<u8> {
    p.spec_flags().bytes@ + values_bytes(p.spec_values())
}

/// The party use parameters stored from byte `o`.
pub open spec fn param_decoded(p: ItemPartyUseParam, b: Seq<u8>, o: int) -> bool {
    &&& p.spec_flags().bytes@ == b.subrange(o, o + 7)
    &&& p.spec_values() == values_at(b, o + 7)
}

fn read_values(data: &[u8], o: usize) -> (v: ItemPartyUseValues)
    requires
        o + 11 <= data@.len(),
    ensures
        v == values_at(data@, o as int),
{
    ItemPartyUseValues {
        hp_evs: to_i8(data[o]),
        atk_evs: to_i8(data[o + 1]),
        def_evs: to_i8(data[o + 2]),
        speed_evs: to_i8(data[o + 3]),
        spatk_evs: to_i8(data[o + 4]),
        spdef_evs: to_i8(data[o + 5]),
        hp_restored: data[o + 6],
        pp_restored: data[o + 7],
        friendship_low: to_i8(data[o + 8]),
        friendship_med: to_i8(data[o + 9]),
        friendship_high: to_i8(data[o + 10]),
    }
}

fn read_param(data: &[u8], o: usize) -> (p: ItemPartyUseParam)
    requires
        o + 18 <= data@.len(),
    ensures
        param_decoded(p, data@, o as int),
{
    let bytes = [data[o], data[o + 1], data[o + 2], data[o + 3], data[o + 4], data[o + 5], data[o + 6]];
    assert(bytes@ =~= data@.subrange(o as int, o + 7));
    ItemPartyUseParam::from_parts(ItemPartyUseFlagsBits::from_bytes(bytes), read_values(data, o + 7))
}

fn push_param(out: &mut Vec<u8>, p: &ItemPartyUseParam)
    ensures
        final(out)@ == old(out)@ + param_bytes(*p),
{
    let ghost start = out@;
    let (flags, v) = p.to_parts();
    let mut i: usize = 0;
    while i < 7
        invariant
            i <= 7,
            flags.bytes@.len() == 7,
            out@ == start + flags.bytes@.take(i as int),
        decreases 7 - i,
    {
        out.push(flags.bytes[i]);
        assert(flags.bytes@.take(i + 1) =~= flags.bytes@.take(i as int).push(flags.bytes@[i as int]));
        i = i + 1;
    }
    assert(flags.bytes@.take(7) =~= flags.bytes@);
    out.push(from_i8(v.hp_evs));
    out.push(from_i8(v.atk_evs));
    out.push(from_i8(v.def_evs));
    out.push(from_i8(v.speed_evs));
    out.push(from_i8(v.spatk_evs));
    out.push(from_i8(v.spdef_evs));
    out.push(v.hp_restored);
    out.push(v.pp_restored);
    out.push(from_i8(v.friendship_low));
    out.push(from_i8(v.friendship_med));
    out.push(from_i8(v.friendship_high));
    assert(out@ =~= start + param_bytes(*p));
}

impl ItemPartyUseParam {
    /// Read the 18 bytes of party use parameters from the start of `data`.
    pub fn from_binary(data: &[u8]) -> (r: Result<Self, UxieError>)
        ensures
            data@.len() >= 18 ==> (r matches Ok(p) && param_decoded(p, data@, 0)),
            data@.len() < 18 ==> (r matches Err(e) && e.spec_kind() == ErrorKind::InvalidData),
    {
        if data.len() < 18 {
            return Err(UxieError::invalid_data(String::from_str("failed to fill whole buffer")));
        }
        Ok(read_param(data, 0))
    }

    /// Append the 18 bytes of these parameters.
    pub fn to_binary(&self, out: &mut Vec<u8>)
        ensures
            final(out)@ == old(out)@ + param_bytes(*self),
    {
        push_param(out, self)
    }
}

// ----- the item -----

/// One item.
#[derive(Debug, Clone, Copy, PartialEq, Eq)]
pub struct ItemData {
    pub price: u16,
    pub hold_effect: u8,
    pub hold_effect_param: u8,
    pub pluck_effect: u8,
    pub fling_effect: u8,
    pub fling_power: u8,
    pub natural_gift_power: u8,
    pub natural_gift_type: u8,
    pub prevent_toss: bool,
    pub is_selectable: bool,
    pub field_pocket: FieldPocket,
    pub battle_pocket: BattlePocket,
    pub field_use_func: u8,
    pub battle_use_func: u8,
    pub party_use: u8,
    pub party_use_param: ItemPartyUseParam,
}

/// The fields of an item fit the widths of the packed word: the natural
/// gift type 5 bits, the battle pockets 5 bits.
pub open spec fn item_fits(it: ItemData) -> bool {
    it.natural_gift_type < 32 && it.battle_pocket.bits < 32
}

/// The packed word of an item.
pub open spec fn item_word(it: ItemData) -> u16 {
    bf_pack(it.natural_gift_type, it.prevent_toss, it.is_selectable, pocket_number(it.field_pocket),
        it.battle_pocket.bits)
}

/// The 34 bytes of an item.
pub open spec fn item_encode(it: ItemData) -> Seq<u8> {
    enc_u16(it.price) + seq![
        it.hold_effect,
        it.hold_effect_param,
        it.pluck_effect,
        it.fling_effect,
        it.fling_power,
        it.natural_gift_power,
    ] + enc_u16(item_word(it)) + seq![it.field_use_func, it.battle_use_func, it.party_use, 0u8]
        + param_bytes(it.party_use_param) + seq![0u8, 0u8]
}

/// The field pocket number the first 34 bytes hold.
pub open spec fn item_pocket_bits(b: Seq<u8>) -> u8 {
    bf_field_pocket(u16_at(b, 8))
}

/// `it` is the item that the bytes `b` hold (their field pocket number is
/// at most 7).
pub open spec fn item_decoded(it: ItemData, b: Seq<u8>) -> bool {
    let w = u16_at(b, 8);
    &&& it.price == u16_at(b, 0)
    &&& it.hold_effect == b[2]
    &&& it.hold_effect_param == b[3]
    &&& it.pluck_effect == b[4]
    &&& it.fling_effect == b[5]
    &&& it.fling_power == b[6]
    &&& it.natural_gift_power == b[7]
    &&& it.natural_gift_type == bf_natural_gift_type(w)
    &&& it.prevent_toss == bf_prevent_toss(w)
    &&& it.is_selectable == bf_is_selectable(w)
    &&& pocket_of(bf_field_pocket(w) as int) == Some(it.field_pocket)
    &&& it.battle_pocket.bits == bf_battle_pocket(w)
    &&& it.field_use_func == b[10]
    &&& it.battle_use_func == b[11]
    &&& it.party_use == b[12]
    &&& param_decoded(it.party_use_param, b, 14)
}

/// The message of the error for a field pocket number above 7.
pub open spec fn bad_pocket_msg(bits: u8) -> Seq<char> {
    "Invalid field pocket bits '"@ + dec(bits as nat) + "' in item bitfield (expected 0..=7)"@
}

impl ItemData {
    /// Read an item from the start of `data`.
    pub fn from_binary(data: &[u8]) -> (r: Result<Self, UxieError>)
        ensures
            data@.len() >= ITEM_DATA_SIZE && item_pocket_bits(data@) <= 7 ==> (r matches Ok(it)
                && item_decoded(it, data@)),
            data@.len() >= ITEM_DATA_SIZE && item_pocket_bits(data@) > 7 ==> (r matches Err(e)
                && e matches UxieError::Io { kind, message } && kind == ErrorKind::InvalidData
                && message@ == bad_pocket_msg(item_pocket_bits(data@))),
            data@.len() < ITEM_DATA_SIZE ==> (r matches Err(e) && e.spec_kind() == ErrorKind::InvalidData),
    {
        if data.len() < ITEM_DATA_SIZE {
            return Err(UxieError::invalid_data(String::from_str("failed to fill whole buffer")));
        }
        let bf = ItemBitfield { bits: read_u16(data, 8) };
        let fp_bits = bf.field_pocket();
        let field_pocket = match FieldPocket::try_from_u8(fp_bits) {
            Some(p) => p,
            None => {
                let mut m = String::new();
                push_str(&mut m, "Invalid field pocket bits '");
                push_dec(&mut m, fp_bits as u64);
                push_str(&mut m, "' in item bitfield (expected 0..=7)");
                assert(m@ =~= bad_pocket_msg(fp_bits));
                return Err(UxieError::invalid_data(m));
            },
        };
        Ok(ItemData {
            price: read_u16(data, 0),
            hold_effect: data[2],
            hold_effect_param: data[3],
            pluck_effect: data[4],
            fling_effect: data[5],
            fling_power: data[6],
            natural_gift_power: data[7],
            natural_gift_type: bf.natural_gift_type(),
            prevent_toss: bf.prevent_toss(),
            is_selectable: bf.is_selectable(),
            field_pocket,
            battle_pocket: BattlePocket { bits: bf.battle_pocket() },
            field_use_func: data[10],
            battle_use_func: data[11],
            party_use: data[12],
            party_use_param: read_param(data, 14),
        })
    }

    /// The packed word of this item.
    pub fn to_bitfield(&self) -> (b: ItemBitfield)
        requires
            item_fits(*self),
        ensures
            b.bits == item_word(*self),
    {
        ItemBitfield {
            bits: pack_bitfield(
                self.natural_gift_type,
                self.prevent_toss,
                self.is_selectable,
                self.field_pocket.to_u8(),
                self.battle_pocket.bits,
            ),
        }
    }

    /// Append the 34 bytes of this item.
    pub fn to_binary(&self, out: &mut Vec<u8>)
        requires
            item_fits(*self),
        ensures
            final(out)@ == old(out)@ + item_encode(*self),
    {
        let ghost start = out@;
        push_u16(out, self.price);
        out.push(self.hold_effect);
        out.push(self.hold_effect_param);
        out.push(self.pluck_effect);
        out.push(self.fling_effect);
        out.push(self.fling_power);
        out.push(self.natural_gift_power);
        push_u16(out, self.to_bitfield().bits);
        out.push(self.field_use_func);
        out.push(self.battle_use_func);
        out.push(self.party_use);
        out.push(0u8);
        push_param(out, &self.party_use_param);
        out.push(0u8);
        out.push(0u8);
        assert(out@ =~= start + item_encode(*self));
    }

    /// The 34 bytes of this item.
    pub fn to_bytes(&self) -> (bytes: Vec<u8>)
        requires
            item_fits(*self),
        ensures
            bytes@ == item_encode(*self),
            bytes@.len() == ITEM_DATA_SIZE,
    {
        let mut out: Vec<u8> = Vec::new();
        self.to_binary(&mut out);
        assert(out@ =~= item_encode(*self));
        out
    }
}

/// Law: an item whose natural gift type and battle pockets fit their bits,
/// written and read back, is the same item, in 34 bytes.
pub proof fn item_roundtrip(it: ItemData, g: ItemData)
    requires
        item_fits(it),
        item_decoded(g, item_encode(it)),
    ensures
        item_encode(it).len() == ITEM_DATA_SIZE,
        item_pocket_bits(item_encode(it)) <= 7,
        g == it,
{
    let b = item_encode(it);
    let w = item_word(it);
    lemma_bf_unpack(it.natural_gift_type, it.prevent_toss, it.is_selectable, pocket_number(it.field_pocket),
        it.battle_pocket.bits);
    lemma_u16_roundtrip(Seq::empty(), it.price, b.subrange(2, 34));
    assert(Seq::<u8>::empty() + enc_u16(it.price) + b.subrange(2, 34) =~= b);
    lemma_u16_roundtrip(b.subrange(0, 8), w, b.subrange(10, 34));
    assert(b.subrange(0, 8) + enc_u16(w) + b.subrange(10, 34) =~= b);
    let gp = g.party_use_param;
    let ip = it.party_use_param;
    assert(gp.spec_flags().bytes@ =~= ip.spec_flags().bytes@);
    assert(gp.spec_flags().bytes =~= ip.spec_flags().bytes);
    assert(gp.spec_values() == ip.spec_values());
    lemma_param_eq(gp, ip);
    assert(g.field_pocket == it.field_pocket);
    assert(g.battle_pocket == it.battle_pocket);
}

proof fn lemma_param_eq(a: ItemPartyUseParam, b: ItemPartyUseParam)
    requires
        a.spec_flags() == b.spec_flags(),
        a.spec_values() == b.spec_values(),
    ensures
        a == b,
{
}

/// Law: 34 bytes with a field pocket number of at most 7 and zero padding,
/// read and written again, are the same bytes.
pub proof fn item_bytes_roundtrip(b: Seq<u8>, it: ItemData)
    requires
        b.len() >= ITEM_DATA_SIZE,
        item_pocket_bits(b) <= 7,
        b[13] == 0,
        b[32] == 0,
        b[33] == 0,
        item_decoded(it, b),
    ensures
        item_fits(it),
        item_encode(it) == b.subrange(0, 34),
{
    let w = u16_at(b, 8);
    lemma_bf_repack(w);
    lemma_enc_u16_of_bytes(b[0], b[1]);
    lemma_enc_u16_of_bytes(b[8], b[9]);
    assert(bf_battle_pocket(w) < 32) by (bit_vector);
    assert(bf_natural_gift_type(w) < 32) by (bit_vector);
    assert(pocket_number(it.field_pocket) == bf_field_pocket(w));
    assert forall|k: int| 21 <= k < 32 implies u8_of(i8_of(b[k])) == b[k] by {}
    assert(item_encode(it) =~= b.subrange(0, 34));
}

/// Law: an item record holds, from byte 0, its price (a little-endian
/// `u16`), hold effect, hold effect parameter, pluck effect, fling effect,
/// fling power and natural gift power (a byte each); at byte 8 a
/// little-endian word whose bits 0-4 are the natural gift type, bit 5
/// "prevent toss", bit 6 "selectable", bits 7-10 the field pocket number
/// and bits 11-15 the battle pockets; the field, battle and party use
/// functions at bytes 10, 11 and 12; the seven party use flag bytes from
/// byte 14, then the signed EV changes (HP, attack, defense, speed, special
/// attack, special defense), the HP and PP restored and the three signed
/// friendship changes, a byte each from byte 21. Reading takes each field
/// from its place.
pub proof fn item_read_layout(b: Seq<u8>, it: ItemData)
    requires
        b.len() >= ITEM_DATA_SIZE,
        item_decoded(it, b),
    ensures
        it.price as int == b[0] + 256 * b[1],
        it.hold_effect == b[2],
        it.hold_effect_param == b[3],
        it.pluck_effect == b[4],
        it.fling_effect == b[5],
        it.fling_power == b[6],
        it.natural_gift_power == b[7],
        it.natural_gift_type as int == (b[8] + 256 * b[9]) % 32,
        it.prevent_toss == ((b[8] + 256 * b[9]) / 32 % 2 == 1),
        it.is_selectable == ((b[8] + 256 * b[9]) / 64 % 2 == 1),
        pocket_number(it.field_pocket) as int == (b[8] + 256 * b[9]) / 128 % 16,
        it.battle_pocket.bits as int == (b[8] + 256 * b[9]) / 2048,
        it.field_use_func == b[10],
        it.battle_use_func == b[11],
        it.party_use == b[12],
        it.party_use_param.spec_flags().bytes@ == b.subrange(14, 21),
        it.party_use_param.spec_values().hp_evs == i8_of(b[21]),
        it.party_use_param.spec_values().atk_evs == i8_of(b[22]),
        it.party_use_param.spec_values().def_evs == i8_of(b[23]),
        it.party_use_param.spec_values().speed_evs == i8_of(b[24]),
        it.party_use_param.spec_values().spatk_evs == i8_of(b[25]),
        it.party_use_param.spec_values().spdef_evs == i8_of(b[26]),
        it.party_use_param.spec_values().hp_restored == b[27],
        it.party_use_param.spec_values().pp_restored == b[28],
        it.party_use_param.spec_values().friendship_low == i8_of(b[29]),
        it.party_use_param.spec_values().friendship_med == i8_of(b[30]),
        it.party_use_param.spec_values().friendship_high == i8_of(b[31]),
{
    let w = u16_at(b, 8);
    assert(w as int == b[8] + 256 * b[9]);
    assert((w & 0x1F) as int == w % 32 && (((w >> 5) & 1 == 1) == (w / 32 % 2 == 1)) && (((w >> 6) & 1 == 1) == (w
        / 64 % 2 == 1)) && ((w >> 7) & 0xF) as int == w / 128 % 16 && ((w >> 11) & 0x1F) as int == w / 2048)
        by (bit_vector);
    pocket_number_of(it.field_pocket, bf_field_pocket(w) as int);
}

/// The pocket that a number names has that number.
proof fn pocket_number_of(p: FieldPocket, v: int)
    requires
        pocket_of(v) == Some(p),
    ensures
        pocket_number(p) as int == v,
{
}

/// Law: writing an item puts each field where reading takes it from (see
/// [`item_read_layout`]), with zero at byte 13 and at bytes 32 and 33.
pub proof fn item_write_layout(it: ItemData)
    ensures
        item_encode(it).len() == ITEM_DATA_SIZE,
        item_encode(it).subrange(0, 2) == enc_u16(it.price),
        item_encode(it)[2] == it.hold_effect,
        item_encode(it)[3] == it.hold_effect_param,
        item_encode(it)[4] == it.pluck_effect,
        item_encode(it)[5] == it.fling_effect,
        item_encode(it)[6] == it.fling_power,
        item_encode(it)[7] == it.natural_gift_power,
        item_fits(it) ==> item_encode(it)[8] as int + 256 * item_encode(it)[9] as int == it.natural_gift_type as int
            + 32 * (if it.prevent_toss { 1int } else { 0int }) + 64 * (if it.is_selectable { 1int } else { 0int })
            + 128 * pocket_number(it.field_pocket) as int + 2048 * it.battle_pocket.bits as int,
        item_encode(it)[10] == it.field_use_func,
        item_encode(it)[11] == it.battle_use_func,
        item_encode(it)[12] == it.party_use,
        item_encode(it)[13] == 0,
        item_encode(it).subrange(14, 21) == it.party_use_param.spec_flags().bytes@,
        item_encode(it)[21] == u8_of(it.party_use_param.spec_values().hp_evs),
        item_encode(it)[22] == u8_of(it.party_use_param.spec_values().atk_evs),
        item_encode(it)[23] == u8_of(it.party_use_param.spec_values().def_evs),
        item_encode(it)[24] == u8_of(it.party_use_param.spec_values().speed_evs),
        item_encode(it)[25] == u8_of(it.party_use_param.spec_values().spatk_evs),
        item_encode(it)[26] == u8_of(it.party_use_param.spec_values().spdef_evs),
        item_encode(it)[27] == it.party_use_param.spec_values().hp_restored,
        item_encode(it)[28] == it.party_use_param.spec_values().pp_restored,
        item_encode(it)[29] == u8_of(it.party_use_param.spec_values().friendship_low),
        item_encode(it)[30] == u8_of(it.party_use_param.spec_values().friendship_med),
        item_encode(it)[31] == u8_of(it.party_use_param.spec_values().friendship_high),
        item_encode(it)[32] == 0,
        item_encode(it)[33] == 0,
{
    let e = item_encode(it);
    assert(e.subrange(0, 2) =~= enc_u16(it.price));
    assert(e.subrange(14, 21) =~= it.party_use_param.spec_flags().bytes@);
    if item_fits(it) {
        let ngt = it.natural_gift_type;
        let fp = pocket_number(it.field_pocket);
        let bp = it.battle_pocket.bits;
        let pt: u16 = if it.prevent_toss { 1 } else { 0 };
        let sel: u16 = if it.is_selectable { 1 } else { 0 };
        let w = item_word(it);
        assert(fp < 16);
        assert(w == ((ngt as u16) | (pt << 5u16) | (sel << 6u16) | ((fp as u16) << 7u16) | ((bp as u16) << 11u16)) as u16);
        assert(((ngt as u16) | (pt << 5u16) | (sel << 6u16) | ((fp as u16) << 7u16) | ((bp as u16) << 11u16)) as int
            == ngt as int + 32 * pt as int + 64 * sel as int + 128 * fp as int + 2048 * bp as int) by (bit_vector)
            requires
                ngt < 32,
                pt < 2,
                sel < 2,
                fp < 16,
                bp < 32,
        ;
        assert(e[8] as int + 256 * e[9] as int == w as int);
    }
}

} // verus!
