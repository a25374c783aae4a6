//! Pokémon data as the decompilation projects write it (`data.json` per
//! species).
use vstd::prelude::*;
use crate::text::{chars_of, parse_int_range, parse_u8};
use crate::error::{UxieError, ErrorKind};
use crate::decomp_data::moves::{unresolved_constant, unresolved_msg};

verus! {

/// Base stats of a species.
#[derive(Debug, Clone)]
pub struct BaseStats {
    pub hp: u8,
    pub attack: u8,
    pub defense: u8,
    pub speed: u8,
    pub special_attack: u8,
    pub special_defense: u8,
}

/// Effort values a species yields.
#[derive(Debug, Clone)]
pub struct EvYields {
    pub hp: u8,
    pub attack: u8,
    pub defense: u8,
    pub speed: u8,
    pub special_attack: u8,
    pub special_defense: u8,
}

/// Items a wild Pokémon of a species may hold.
#[derive(Debug, Clone)]
pub struct HeldItems {
    pub common: String,
    pub rare: String,
}

/// The moves a species learns.
#[derive(Debug, Clone)]
pub struct Learnset {
    pub by_level: Vec<(u8, String)>,
    pub by_tm: Vec<String>,
    pub by_tutor: Vec<String>,
    pub egg_moves: Vec<String>,
}

/// The machine index a name stands for: `TMnn` is `nn - 1` (0 for `TM00`),
/// `HMnn` is `91 + nn`, where `nn` is read as a `u8`; any other name is
/// `None`.
pub open spec fn tm_index(s: Seq<char>) -> Option<int> {
    if s.len() >= 2 && s[0] == 'T' && s[1] == 'M' {
        match parse_u8(s.skip(2)) {
            Some(n) => Some(if n >= 1 { n - 1 } else { 0 }),
            None => None,
        }
    } else if s.len() >= 2 && s[0] == 'H' && s[1] == 'M' {
        match parse_u8(s.skip(2)) {
            Some(n) => Some(91 + n),
            None => None,
        }
    } else {
        None
    }
}

/// Parse a TM/HM index from a name like "TM01", "TM92" or "HM01": TM01-TM92
/// are 0-91 and HM01-HM08 are 92-99. An HM number above 164 has no index
/// that fits a byte.
pub fn parse_tm_index(tm: &str) -> (r: Option<u8>)
    requires
        tm_index(tm@) matches Some(v) ==> v <= 255,
    ensures
        r == match tm_index(tm@) {
            Some(v) => Some(v as u8),
            None => None::<u8>,
        },
{
    let cs = chars_of(tm);
    if cs.len() < 2 {
        return None;
    }
    let is_tm = cs[0] == 'T' && cs[1] == 'M';
    let is_hm = cs[0] == 'H' && cs[1] == 'M';
    if !is_tm && !is_hm {
        return None;
    }
    let n = parse_int_range(&cs, 2, cs.len(), 10, false, 0, 255);
    assert(cs@.subrange(2, cs@.len() as int) =~= tm@.skip(2));
    match n {
        Some(v) => {
            if is_tm {
                Some(if v >= 1 { (v - 1) as u8 } else { 0u8 })
            } else {
                Some((91 + v) as u8)
            }
        },
        None => None,
    }
}


/// A species as the decompilation projects describe it (its evolutions,
/// which no conversion here reads, are left to the reader of the file).
#[derive(Debug, Clone)]
pub struct DecompPokemonData {
    pub base_stats: BaseStats,
    pub types: [String; 2],
    pub catch_rate: u8,
    pub base_exp_reward: u8,
    pub ev_yields: EvYields,
    pub held_items: HeldItems,
    pub gender_ratio: String,
    pub hatch_cycles: u8,
    pub base_friendship: u8,
    pub exp_rate: String,
    pub egg_groups: [String; 2],
    pub abilities: [String; 2],
    pub safari_flee_rate: u8,
    pub body_color: String,
    pub flip_sprite: bool,
    pub icon_palette: u8,
    pub learnset: Option<Learnset>,
    pub offspring: Option<String>,
}

/// A species' binary personal record.
#[derive(Debug, Clone)]
pub struct PersonalData {
    pub hp: u8,
    pub attack: u8,
    pub defense: u8,
    pub speed: u8,
    pub sp_attack: u8,
    pub sp_defense: u8,
    pub type1: u8,
    pub type2: u8,
    pub catch_rate: u8,
    pub base_exp: u8,
    pub ev_yield: u16,
    pub item1: u16,
    pub item2: u16,
    pub gender_ratio: u8,
    pub egg_cycles: u8,
    pub base_friendship: u8,
    pub growth_rate: u8,
    pub egg_group1: u8,
    pub egg_group2: u8,
    pub ability1: u8,
    pub ability2: u8,
    pub safari_flee_rate: u8,
    pub color_flip: u8,
    pub tm_compatibility: [u8; 16],
}

/// The effort yields packed two bits each: HP, Attack, Defense, Speed,
/// Special Attack, Special Defense from the low bits up.
pub open spec fn ev_pack(e: EvYields) -> u16 {
    ((e.hp as u16) & 3) | (((e.attack as u16) & 3) << 2u16) | (((e.defense as u16) & 3) << 4u16)
        | (((e.speed as u16) & 3) << 6u16) | (((e.special_attack as u16) & 3) << 8u16)
        | (((e.special_defense as u16) & 3) << 10u16)
}

/// The machine compatibility bits of some machine names: the bit of each
/// index below 128 set.
pub open spec fn tm_bits(tms: Seq<Seq<char>>) -> Seq<u8>
    decreases tms.len(),
{
    if tms.len() == 0 {
        Seq::new(16, |i: int| 0u8)
    } else {
        let b = tm_bits(tms.drop_last());
        match tm_index(tms.last()) {
            Some(idx) => if 0 <= idx < 128 {
                b.update(idx / 8, b[idx / 8] | (1u8 << ((idx % 8) as u8)))
            } else {
                b
            },
            None => b,
        }
    }
}

proof fn lemma_tm_bits_len(tms: Seq<Seq<char>>)
    ensures
        tm_bits(tms).len() == 16,
    decreases tms.len(),
{
    if tms.len() > 0 {
        lemma_tm_bits_len(tms.drop_last());
    }
}

/// The machine names of a species, none without a learnset.
pub open spec fn tm_names(d: DecompPokemonData) -> Seq<Seq<char>> {
    match d.learnset {
        Some(l) => l.by_tm@.map_values(|t: String| t@),
        None => Seq::empty(),
    }
}

/// The constants `to_personal_data` resolves, in order, with the field each
/// comes from.
pub open spec fn personal_constants(d: DecompPokemonData) -> Seq<(Seq<char>, Seq<char>)> {
    seq![
        (d.body_color@, "body_color"@),
        (d.types[0]@, "types[0]"@),
        (d.types[1]@, "types[1]"@),
        (d.held_items.common@, "held_items.common"@),
        (d.held_items.rare@, "held_items.rare"@),
        (d.abilities[0]@, "abilities[0]"@),
        (d.abilities[1]@, "abilities[1]"@),
        (d.egg_groups[0]@, "egg_groups[0]"@),
        (d.egg_groups[1]@, "egg_groups[1]"@),
        (d.gender_ratio@, "gender_ratio"@),
        (d.exp_rate@, "exp_rate"@),
    ]
}

/// The record built from a species and the values of its constants.
pub open spec fn personal_of(d: DecompPokemonData, v: Seq<i64>, p: PersonalData) -> bool {
    let color = v[0] as u8;
    &&& p.hp == d.base_stats.hp && p.attack == d.base_stats.attack && p.defense == d.base_stats.defense
    &&& p.speed == d.base_stats.speed && p.sp_attack == d.base_stats.special_attack
    &&& p.sp_defense == d.base_stats.special_defense
    &&& p.type1 == v[1] as u8 && p.type2 == v[2] as u8
    &&& p.catch_rate == d.catch_rate && p.base_exp == d.base_exp_reward
    &&& p.ev_yield == ev_pack(d.ev_yields)
    &&& p.item1 == v[3] as u16 && p.item2 == v[4] as u16
    &&& p.ability1 == v[5] as u8 && p.ability2 == v[6] as u8
    &&& p.egg_group1 == v[7] as u8 && p.egg_group2 == v[8] as u8
    &&& p.gender_ratio == v[9] as u8 && p.growth_rate == v[10] as u8
    &&& p.egg_cycles == d.hatch_cycles && p.base_friendship == d.base_friendship
    &&& p.safari_flee_rate == d.safari_flee_rate
    &&& p.color_flip == ((color & 0x7Fu8) | (if d.flip_sprite { 0x80u8 } else { 0u8 }))
    &&& p.tm_compatibility@ == tm_bits(tm_names(d))
}

/// `resolve` gave `o` for the constant `c`.
pub open spec fn looked_up<F: Fn(&str) -> Option<i64>>(resolve: F, c: Seq<char>, o: Option<i64>) -> bool {
    exists|s: &str| s@ == c && call_ensures(resolve, (s,), o)
}

/// `resolve` gave the results `got` for the first constants, in order; all
/// but the last resolved, and the last did not unless all eleven did.
pub open spec fn personal_lookups<F: Fn(&str) -> Option<i64>>(resolve: F, d: DecompPokemonData, got: Seq<Option<i64>>) -> bool {
    let cs = personal_constants(d);
    &&& 1 <= got.len() <= 11
    &&& forall|i: int| 0 <= i < got.len() ==> looked_up(resolve, cs[i].0, #[trigger] got[i])
    &&& forall|i: int| 0 <= i < got.len() - 1 ==> (#[trigger] got[i]) is Some
    &&& got.len() < 11 ==> got.last() is None
}

/// The record is built when every constant resolved; otherwise the error
/// names the first that did not.
pub open spec fn personal_result(d: DecompPokemonData, got: Seq<Option<i64>>, r: Result<PersonalData, UxieError>) -> bool {
    let cs = personal_constants(d);
    if got.last() is Some {
        r matches Ok(p) && personal_of(d, got.map_values(|o: Option<i64>| o->0), p)
    } else {
        r matches Err(e) && e matches UxieError::Io { kind, message } && kind == ErrorKind::InvalidData
            && message@ == unresolved_msg(cs[got.len() - 1].0, cs[got.len() - 1].1, "pokemon"@)
    }
}

/// Every machine name of a species reads as an index that fits a byte.
pub open spec fn tm_names_fit(d: DecompPokemonData) -> bool {
    forall|i: int| 0 <= i < tm_names(d).len() ==> (tm_index(#[trigger] tm_names(d)[i]) matches Some(v) ==> v <= 255)
}

proof fn lemma_ev_fields(h: u16, a: u16, de: u16, sp: u16, sa: u16, sd: u16, w: u16)
    by (bit_vector)
    requires
        w == (h & 3) | ((a & 3) << 2u16) | ((de & 3) << 4u16) | ((sp & 3) << 6u16) | ((sa & 3) << 8u16) | ((sd
            & 3) << 10u16),
    ensures
        w & 3 == h & 3,
        (w >> 2u16) & 3 == a & 3,
        (w >> 4u16) & 3 == de & 3,
        (w >> 6u16) & 3 == sp & 3,
        (w >> 8u16) & 3 == sa & 3,
        (w >> 10u16) & 3 == sd & 3,
        w >> 12u16 == 0,
{
}

/// Law: each field of a species' personal record comes from its own source.
/// The stats, catch rate, experience, hatch cycles, friendship and flee rate
/// are the species' own numbers; the effort yields sit two bits each, HP,
/// Attack, Defense, Speed, Special Attack, Special Defense from the low bits
/// up; and each symbolic field is a value that `resolve` gave for that
/// field's own constant: the first type, the second type, the common and the
/// rare held item, the two abilities, the two egg groups, the gender ratio,
/// the growth rate, and the colour (its low seven bits, the flip flag on
/// top).
pub proof fn personal_fields<F: Fn(&str) -> Option<i64>>(
    resolve: F,
    d: DecompPokemonData,
    got: Seq<Option<i64>>,
    p: PersonalData,
)
    requires
        personal_lookups(resolve, d, got),
        personal_result(d, got, Ok(p)),
    ensures
        p.hp == d.base_stats.hp,
        p.attack == d.base_stats.attack,
        p.defense == d.base_stats.defense,
        p.speed == d.base_stats.speed,
        p.sp_attack == d.base_stats.special_attack,
        p.sp_defense == d.base_stats.special_defense,
        p.catch_rate == d.catch_rate,
        p.base_exp == d.base_exp_reward,
        p.egg_cycles == d.hatch_cycles,
        p.base_friendship == d.base_friendship,
        p.safari_flee_rate == d.safari_flee_rate,
        p.ev_yield & 3 == (d.ev_yields.hp as u16) & 3,
        (p.ev_yield >> 2u16) & 3 == (d.ev_yields.attack as u16) & 3,
        (p.ev_yield >> 4u16) & 3 == (d.ev_yields.defense as u16) & 3,
        (p.ev_yield >> 6u16) & 3 == (d.ev_yields.speed as u16) & 3,
        (p.ev_yield >> 8u16) & 3 == (d.ev_yields.special_attack as u16) & 3,
        (p.ev_yield >> 10u16) & 3 == (d.ev_yields.special_defense as u16) & 3,
        p.ev_yield >> 12u16 == 0,
        exists|v: i64| looked_up(resolve, d.types[0]@, Some(v)) && p.type1 == v as u8,
        exists|v: i64| looked_up(resolve, d.types[1]@, Some(v)) && p.type2 == v as u8,
        exists|v: i64| looked_up(resolve, d.held_items.common@, Some(v)) && p.item1 == v as u16,
        exists|v: i64| looked_up(resolve, d.held_items.rare@, Some(v)) && p.item2 == v as u16,
        exists|v: i64| looked_up(resolve, d.abilities[0]@, Some(v)) && p.ability1 == v as u8,
        exists|v: i64| looked_up(resolve, d.abilities[1]@, Some(v)) && p.ability2 == v as u8,
        exists|v: i64| looked_up(resolve, d.egg_groups[0]@, Some(v)) && p.egg_group1 == v as u8,
        exists|v: i64| looked_up(resolve, d.egg_groups[1]@, Some(v)) && p.egg_group2 == v as u8,
        exists|v: i64| looked_up(resolve, d.gender_ratio@, Some(v)) && p.gender_ratio == v as u8,
        exists|v: i64| looked_up(resolve, d.exp_rate@, Some(v)) && p.growth_rate == v as u8,
        exists|v: i64|
            looked_up(resolve, d.body_color@, Some(v)) && p.color_flip == (((v as u8) & 0x7Fu8) | (if d.flip_sprite {
                0x80u8
            } else {
                0u8
            })),
{
    let cs = personal_constants(d);
    assert(got.len() == 11);
    let vals = got.map_values(|o: Option<i64>| o->0);
    assert(personal_of(d, vals, p));
    assert forall|i: int| 0 <= i < 11 implies got[i] == Some(#[trigger] vals[i]) by {
        if i < 10 {
            assert(got[i] is Some);
        }
    }
    assert(looked_up(resolve, cs[0].0, got[0]));
    assert(looked_up(resolve, cs[1].0, got[1]));
    assert(looked_up(resolve, cs[2].0, got[2]));
    assert(looked_up(resolve, cs[3].0, got[3]));
    assert(looked_up(resolve, cs[4].0, got[4]));
    assert(looked_up(resolve, cs[5].0, got[5]));
    assert(looked_up(resolve, cs[6].0, got[6]));
    assert(looked_up(resolve, cs[7].0, got[7]));
    assert(looked_up(resolve, cs[8].0, got[8]));
    assert(looked_up(resolve, cs[9].0, got[9]));
    assert(looked_up(resolve, cs[10].0, got[10]));
    let e = d.ev_yields;
    lemma_ev_fields(e.hp as u16, e.attack as u16, e.defense as u16, e.speed as u16, e.special_attack as u16,
        e.special_defense as u16, p.ev_yield);
}

impl DecompPokemonData {
    /// The machine compatibility bits.
    fn tm_compatibility(&self) -> (r: [u8; 16])
        requires
            tm_names_fit(*self),
        ensures
            r@ == tm_bits(tm_names(*self)),
    {
        let mut arr = [0u8; 16];
        let ghost names = tm_names(*self);
        assert(arr@ =~= tm_bits(names.take(0)));
        match &self.learnset {
            Some(l) => {
                let mut k: usize = 0;
                while k < l.by_tm.len()
                    invariant
                        k <= l.by_tm@.len(),
                        names == l.by_tm@.map_values(|t: String| t@),
                        tm_names_fit(*self),
                        names == tm_names(*self),
                        arr@ == tm_bits(names.take(k as int)),
                    decreases l.by_tm@.len() - k,
                {
                    proof {
                        lemma_tm_bits_len(names.take(k as int));
                        assert(names.take(k + 1).drop_last() =~= names.take(k as int));
                        assert(names[k as int] == l.by_tm@[k as int]@);
                    }
                    match parse_tm_index(l.by_tm[k].as_str()) {
                        Some(idx) => {
                            if idx < 128 {
                                let byte_idx = (idx / 8) as usize;
                                let bit_idx = idx % 8;
                                let cur = arr[byte_idx];
                                arr.set(byte_idx, cur | (1u8 << bit_idx));
                            }
                        },
                        None => {},
                    }
                    k = k + 1;
                }
                assert(names.take(k as int) =~= names);
            },
            None => {
                assert(names =~= Seq::<Seq<char>>::empty());
                assert(names.take(0) =~= names);
            },
        }
        arr
    }

    /// The record built from the values of its eleven constants.
    fn build_personal(&self, v: &Vec<i64>) -> (p: PersonalData)
        requires
            v@.len() == 11,
            tm_names_fit(*self),
        ensures
            personal_of(*self, v@, p),
    {
        let ev_yield = ((self.ev_yields.hp as u16) & 3) | (((self.ev_yields.attack as u16) & 3) << 2u16)
            | (((self.ev_yields.defense as u16) & 3) << 4u16) | (((self.ev_yields.speed as u16) & 3) << 6u16)
            | (((self.ev_yields.special_attack as u16) & 3) << 8u16)
            | (((self.ev_yields.special_defense as u16) & 3) << 10u16);
        let color = v[0] as u8;
        let color_flip = (color & 0x7Fu8) | (if self.flip_sprite { 0x80u8 } else { 0u8 });
        PersonalData {
            hp: self.base_stats.hp,
            attack: self.base_stats.attack,
            defense: self.base_stats.defense,
            speed: self.base_stats.speed,
            sp_attack: self.base_stats.special_attack,
            sp_defense: self.base_stats.special_defense,
            type1: v[1] as u8,
            type2: v[2] as u8,
            catch_rate: self.catch_rate,
            base_exp: self.base_exp_reward,
            ev_yield,
            item1: v[3] as u16,
            item2: v[4] as u16,
            gender_ratio: v[9] as u8,
            egg_cycles: self.hatch_cycles,
            base_friendship: self.base_friendship,
            growth_rate: v[10] as u8,
            egg_group1: v[7] as u8,
            egg_group2: v[8] as u8,
            ability1: v[5] as u8,
            ability2: v[6] as u8,
            safari_flee_rate: self.safari_flee_rate,
            color_flip,
            tm_compatibility: self.tm_compatibility(),
        }
    }

    /// The constant and field name at position `k` of the lookup order.
    fn constant_at(&self, k: usize) -> (r: (&str, &str))
        requires
            k < 11,
        ensures
            r.0@ == personal_constants(*self)[k as int].0,
            r.1@ == personal_constants(*self)[k as int].1,
    {
        proof {
            reveal_strlit("body_color");
            reveal_strlit("types[0]");
            reveal_strlit("types[1]");
            reveal_strlit("held_items.common");
            reveal_strlit("held_items.rare");
            reveal_strlit("abilities[0]");
            reveal_strlit("abilities[1]");
            reveal_strlit("egg_groups[0]");
            reveal_strlit("egg_groups[1]");
            reveal_strlit("gender_ratio");
            reveal_strlit("exp_rate");
        }
        if k == 0 {
            (self.body_color.as_str(), "body_color")
        } else if k == 1 {
            (self.types[0].as_str(), "types[0]")
        } else if k == 2 {
            (self.types[1].as_str(), "types[1]")
        } else if k == 3 {
            (self.held_items.common.as_str(), "held_items.common")
        } else if k == 4 {
            (self.held_items.rare.as_str(), "held_items.rare")
        } else if k == 5 {
            (self.abilities[0].as_str(), "abilities[0]")
        } else if k == 6 {
            (self.abilities[1].as_str(), "abilities[1]")
        } else if k == 7 {
            (self.egg_groups[0].as_str(), "egg_groups[0]")
        } else if k == 8 {
            (self.egg_groups[1].as_str(), "egg_groups[1]")
        } else if k == 9 {
            (self.gender_ratio.as_str(), "gender_ratio")
        } else {
            (self.exp_rate.as_str(), "exp_rate")
        }
    }

    /// Convert this species to its binary personal record, resolving its
    /// symbolic constants with `resolve_constant` in the order body colour,
    /// types, held items, abilities, egg groups, gender ratio, growth rate;
    /// lookup stops at the first that does not resolve, which is the
    /// error. The effort yields are packed two bits each, the colour keeps
    /// its low seven bits with the flip flag on top, and each machine name
    /// with an index below 128 sets its compatibility bit.
    pub fn to_personal_data<F: Fn(&str) -> Option<i64>>(&self, resolve_constant: F) -> (r: Result<PersonalData, UxieError>)
        requires
            forall|s: &str| call_requires(resolve_constant, (s,)),
            tm_names_fit(*self),
        ensures
            exists|got: Seq<Option<i64>>| personal_lookups(resolve_constant, *self, got) && personal_result(*self, got, r),
            r is Err ==> r->Err_0.spec_kind() == ErrorKind::InvalidData,
    {
        let ghost cs = personal_constants(*self);
        let mut vals: Vec<i64> = Vec::new();
        let ghost mut got: Seq<Option<i64>> = Seq::empty();
        let mut k: usize = 0;
        while k < 11
            invariant
                k <= 11,
                cs == personal_constants(*self),
                forall|s: &str| call_requires(resolve_constant, (s,)),
                got.len() == k,
                vals@.len() == k,
                forall|i: int| 0 <= i < k ==> got[i] == Some(#[trigger] vals@[i]),
                forall|i: int| 0 <= i < k ==> looked_up(resolve_constant, cs[i].0, #[trigger] got[i]),
            decreases 11 - k,
        {
            let (c, field) = self.constant_at(k);
            let o = resolve_constant(c);
            let ghost g0 = got;
            proof {
                got = got.push(o);
                assert(call_ensures(resolve_constant, (c,), got[k as int]));
                assert(looked_up(resolve_constant, cs[k as int].0, got[k as int]));
                assert forall|i: int| 0 <= i <= k implies looked_up(resolve_constant, cs[i].0, #[trigger] got[i]) by {
                    if i < k {
                        assert(got[i] == g0[i]);
                        assert(looked_up(resolve_constant, cs[i].0, g0[i]));
                    }
                }
                assert forall|i: int| 0 <= i < k implies got[i] == Some(#[trigger] vals@[i]) by {
                    assert(got[i] == g0[i]);
                }
            }
            match o {
                Some(v) => {
                    vals.push(v);
                },
                None => {
                    let e = unresolved_constant(c, field, "pokemon");
                    proof {
                        reveal_strlit("pokemon");
                        assert forall|i: int| 0 <= i < got.len() - 1 implies (#[trigger] got[i]) is Some by {
                            assert(got[i] == Some(vals@[i]));
                        }
                        assert(personal_lookups(resolve_constant, *self, got));
                    }
                    let r: Result<PersonalData, UxieError> = Err(e);
                    assert(personal_result(*self, got, r));
                    return r;
                },
            }
            k = k + 1;
        }
        let p = self.build_personal(&vals);
        proof {
            assert(got.map_values(|o: Option<i64>| o->0) =~= vals@);
            assert forall|i: int| 0 <= i < got.len() - 1 implies (#[trigger] got[i]) is Some by {
                assert(got[i] == Some(vals@[i]));
            }
            assert(got.last() == Some(vals@[10]));
            assert(personal_lookups(resolve_constant, *self, got));
        }
        let r: Result<PersonalData, UxieError> = Ok(p);
        assert(personal_result(*self, got, r));
        r
    }
}

} // verus!
