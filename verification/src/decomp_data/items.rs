//! Item data as the decompilation projects write it (one CSV row per
//! item), converted to the binary [`ItemData`] record.
use vstd::prelude::*;
use crate::error::{UxieError, ErrorKind, invalid_data_text};
use crate::item_data::{
    BattlePocket, FieldPocket, ItemData, ItemPartyUseFlagsBits, ItemPartyUseParam,
    ItemPartyUseValues, bit_of, pocket_of,
};
use crate::decomp_data::moves::{unresolved_msg, unresolved_constant};
use crate::text::{
    chars_of, dec, trim, trim_bounds, string_of, push_str, push_dec, str_eq, parse_u8,
    parse_int_range, split_on, piece_end, push_char, int_from_str, int_error_text, int_error_message,
    parse_int_detailed, trimmed, split_trimmed, lines, next_line,
};
use crate::map_header::c_format::{field_lookup, field_view, lookup_field};

verus! {

/// One item row of the decompilation CSV.
#[derive(Debug, Clone)]
pub struct DecompItemData {
    pub name: String,
    pub price: u16,
    pub hold_effect: String,
    pub hold_effect_param: u8,
    pub pluck_effect: u8,
    pub fling_effect: u8,
    pub fling_power: u8,
    pub natural_gift_power: u8,
    pub natural_gift_type: u8,
    pub prevent_toss: bool,
    pub selectable: bool,
    pub field_pocket: String,
    pub battle_pocket: String,
    pub field_use_func: String,
    pub battle_use_func: u8,
    pub party_use: u8,
    pub heal_sleep: bool,
    pub heal_poison: bool,
    pub heal_burn: bool,
    pub heal_freeze: bool,
    pub heal_paralysis: bool,
    pub heal_confusion: bool,
    pub heal_attract: bool,
    pub guard_spec: bool,
    pub revive: bool,
    pub revive_all: bool,
    pub level_up: bool,
    pub evolve: bool,
    pub atk_stages: u8,
    pub def_stages: u8,
    pub spatk_stages: u8,
    pub spdef_stages: u8,
    pub speed_stages: u8,
    pub acc_stages: u8,
    pub crit_stages: u8,
    pub pp_up: bool,
    pub pp_max: bool,
    pub pp_restore: bool,
    pub pp_restore_all: bool,
    pub hp_restore: bool,
    pub give_hp_evs: bool,
    pub give_atk_evs: bool,
    pub give_def_evs: bool,
    pub give_speed_evs: bool,
    pub give_spatk_evs: bool,
    pub give_spdef_evs: bool,
    pub give_friendship_low: bool,
    pub give_friendship_med: bool,
    pub give_friendship_high: bool,
    pub hp_evs: i8,
    pub atk_evs: i8,
    pub def_evs: i8,
    pub speed_evs: i8,
    pub spatk_evs: i8,
    pub spdef_evs: i8,
    pub hp_restored: u8,
    pub pp_restored: u8,
    pub friendship_low: i8,
    pub friendship_med: i8,
    pub friendship_high: i8,
}

/// Stage counts fit their bitfields: 4 bits each, 2 for the critical stage.
pub open spec fn stages_fit(d: DecompItemData) -> bool {
    &&& d.atk_stages < 16
    &&& d.def_stages < 16
    &&& d.spatk_stages < 16
    &&& d.spdef_stages < 16
    &&& d.speed_stages < 16
    &&& d.acc_stages < 16
    &&& d.crit_stages < 4
}

/// Bit `k` of the party use flags of an item row.
pub open spec fn party_flag(d: DecompItemData, k: int) -> bool {
    if k == 0 {
        d.heal_sleep
    } else if k == 1 {
        d.heal_poison
    } else if k == 2 {
        d.heal_burn
    } else if k == 3 {
        d.heal_freeze
    } else if k == 4 {
        d.heal_paralysis
    } else if k == 5 {
        d.heal_confusion
    } else if k == 6 {
        d.heal_attract
    } else if k == 7 {
        d.guard_spec
    } else if k == 8 {
        d.revive
    } else if k == 9 {
        d.revive_all
    } else if k == 10 {
        d.level_up
    } else if k == 11 {
        d.evolve
    } else if 12 <= k < 16 {
        (d.atk_stages >> ((k - 12) as u8)) & 1 == 1
    } else if 16 <= k < 20 {
        (d.def_stages >> ((k - 16) as u8)) & 1 == 1
    } else if 20 <= k < 24 {
        (d.spatk_stages >> ((k - 20) as u8)) & 1 == 1
    } else if 24 <= k < 28 {
        (d.spdef_stages >> ((k - 24) as u8)) & 1 == 1
    } else if 28 <= k < 32 {
        (d.speed_stages >> ((k - 28) as u8)) & 1 == 1
    } else if 32 <= k < 36 {
        (d.acc_stages >> ((k - 32) as u8)) & 1 == 1
    } else if 36 <= k < 38 {
        (d.crit_stages >> ((k - 36) as u8)) & 1 == 1
    } else if k == 38 {
        d.pp_up
    } else if k == 39 {
        d.pp_max
    } else if k == 40 {
        d.pp_restore
    } else if k == 41 {
        d.pp_restore_all
    } else if k == 42 {
        d.hp_restore
    } else if k == 43 {
        d.give_hp_evs
    } else if k == 44 {
        d.give_atk_evs
    } else if k == 45 {
        d.give_def_evs
    } else if k == 46 {
        d.give_speed_evs
    } else if k == 47 {
        d.give_spatk_evs
    } else if k == 48 {
        d.give_spdef_evs
    } else if k == 49 {
        d.give_friendship_low
    } else if k == 50 {
        d.give_friendship_med
    } else if k == 51 {
        d.give_friendship_high
    } else {
        false
    }
}

fn party_flag_exec(d: &DecompItemData, k: u8) -> (b: bool)
    requires
        k < 56,
    ensures
        b == party_flag(*d, k as int),
{
    if k == 0 {
        d.heal_sleep
    } else if k == 1 {
        d.heal_poison
    } else if k == 2 {
        d.heal_burn
    } else if k == 3 {
        d.heal_freeze
    } else if k == 4 {
        d.heal_paralysis
    } else if k == 5 {
        d.heal_confusion
    } else if k == 6 {
        d.heal_attract
    } else if k == 7 {
        d.guard_spec
    } else if k == 8 {
        d.revive
    } else if k == 9 {
        d.revive_all
    } else if k == 10 {
        d.level_up
    } else if k == 11 {
        d.evolve
    } else if 12 <= k && k < 16 {
        (d.atk_stages >> (k - 12)) & 1 == 1
    } else if 16 <= k && k < 20 {
        (d.def_stages >> (k - 16)) & 1 == 1
    } else if 20 <= k && k < 24 {
        (d.spatk_stages >> (k - 20)) & 1 == 1
    } else if 24 <= k && k < 28 {
        (d.spdef_stages >> (k - 24)) & 1 == 1
    } else if 28 <= k && k < 32 {
        (d.speed_stages >> (k - 28)) & 1 == 1
    } else if 32 <= k && k < 36 {
        (d.acc_stages >> (k - 32)) & 1 == 1
    } else if 36 <= k && k < 38 {
        (d.crit_stages >> (k - 36)) & 1 == 1
    } else if k == 38 {
        d.pp_up
    } else if k == 39 {
        d.pp_max
    } else if k == 40 {
        d.pp_restore
    } else if k == 41 {
        d.pp_restore_all
    } else if k == 42 {
        d.hp_restore
    } else if k == 43 {
        d.give_hp_evs
    } else if k == 44 {
        d.give_atk_evs
    } else if k == 45 {
        d.give_def_evs
    } else if k == 46 {
        d.give_speed_evs
    } else if k == 47 {
        d.give_spatk_evs
    } else if k == 48 {
        d.give_spdef_evs
    } else if k == 49 {
        d.give_friendship_low
    } else if k == 50 {
        d.give_friendship_med
    } else if k == 51 {
        d.give_friendship_high
    } else {
        false
    }
}

/// The scalar party use values of an item row.
pub open spec fn party_values(d: DecompItemData) -> ItemPartyUseValues {
    ItemPartyUseValues {
        hp_evs: d.hp_evs,
        atk_evs: d.atk_evs,
        def_evs: d.def_evs,
        speed_evs: d.speed_evs,
        spatk_evs: d.spatk_evs,
        spdef_evs: d.spdef_evs,
        hp_restored: d.hp_restored,
        pp_restored: d.pp_restored,
        friendship_low: d.friendship_low,
        friendship_med: d.friendship_med,
        friendship_high: d.friendship_high,
    }
}

/// The field pocket a CSV cell names: a `POCKET_*` constant or its number.
pub open spec fn field_pocket_of(v: Seq<char>) -> Result<FieldPocket, Seq<char>> {
    if v == "POCKET_ITEMS"@ {
        Ok(FieldPocket::Items)
    } else if v == "POCKET_MEDICINE"@ {
        Ok(FieldPocket::Medicine)
    } else if v == "POCKET_BALLS"@ {
        Ok(FieldPocket::Balls)
    } else if v == "POCKET_TM_HMS"@ {
        Ok(FieldPocket::TmHms)
    } else if v == "POCKET_BERRIES"@ {
        Ok(FieldPocket::Berries)
    } else if v == "POCKET_MAIL"@ {
        Ok(FieldPocket::Mail)
    } else if v == "POCKET_BATTLE_ITEMS"@ {
        Ok(FieldPocket::BattleItems)
    } else if v == "POCKET_KEY_ITEMS"@ {
        Ok(FieldPocket::KeyItems)
    } else {
        match parse_u8(v) {
            Some(n) => match pocket_of(n) {
                Some(p) => Ok(p),
                None => Err("Invalid numeric field pocket '"@ + dec(n as nat) + "' (expected 0..=7)"@),
            },
            None => Err("Invalid field pocket '"@ + v + "'"@),
        }
    }
}

/// The bits of one `BATTLE_POCKET_MASK_*` name.
pub open spec fn battle_flag_bits(f: Seq<char>) -> Option<u8> {
    if f == "BATTLE_POCKET_MASK_NONE"@ {
        Some(0)
    } else if f == "BATTLE_POCKET_MASK_POKE_BALLS"@ {
        Some(0x01)
    } else if f == "BATTLE_POCKET_MASK_BATTLE_ITEMS"@ {
        Some(0x02)
    } else if f == "BATTLE_POCKET_MASK_RECOVER_HP"@ {
        Some(0x04)
    } else if f == "BATTLE_POCKET_MASK_RECOVER_STATUS"@ {
        Some(0x08)
    } else if f == "BATTLE_POCKET_MASK_RECOVER_PP"@ {
        Some(0x10)
    } else if f == "BATTLE_POCKET_MASK_RECOVER_HP_STATUS"@ {
        Some(0x0c)
    } else {
        None
    }
}

/// The flags `acc` united with those the names `parts` give; the first name
/// that is none of them is refused.
pub open spec fn battle_flags_from(parts: Seq<Seq<char>>, acc: u8) -> Result<u8, Seq<char>>
    decreases parts.len(),
{
    if parts.len() == 0 {
        Ok(acc)
    } else {
        let f = trim(parts[0]);
        match battle_flag_bits(f) {
            None => Err("Invalid battle pocket flag '"@ + f + "'"@),
            Some(b) => battle_flags_from(parts.drop_first(), acc | b),
        }
    }
}

/// The battle pockets a CSV cell names: empty for none, a number of at most
/// five bits, or `BATTLE_POCKET_MASK_*` names joined by `|`.
pub open spec fn battle_pocket_of(v: Seq<char>) -> Result<u8, Seq<char>> {
    let t = trim(v);
    if t.len() == 0 {
        Ok(0)
    } else {
        match parse_u8(t) {
            Some(bits) => if bits < 32 {
                Ok(bits as u8)
            } else {
                Err("Invalid numeric battle pocket '"@ + dec(bits as nat) + "' (contains unsupported flag bits)"@)
            },
            None => battle_flags_from(split_on(t, '|'), 0),
        }
    }
}

pub open spec fn text_result<T>(r: Result<T, String>) -> Result<T, Seq<char>> {
    match r {
        Ok(v) => Ok(v),
        Err(m) => Err(m@),
    }
}

fn field_pocket_exec(value: &str) -> (r: Result<FieldPocket, String>)
    ensures
        text_result(r) == field_pocket_of(value@),
{
    if str_eq(value, "POCKET_ITEMS") {
        Ok(FieldPocket::Items)
    } else if str_eq(value, "POCKET_MEDICINE") {
        Ok(FieldPocket::Medicine)
    } else if str_eq(value, "POCKET_BALLS") {
        Ok(FieldPocket::Balls)
    } else if str_eq(value, "POCKET_TM_HMS") {
        Ok(FieldPocket::TmHms)
    } else if str_eq(value, "POCKET_BERRIES") {
        Ok(FieldPocket::Berries)
    } else if str_eq(value, "POCKET_MAIL") {
        Ok(FieldPocket::Mail)
    } else if str_eq(value, "POCKET_BATTLE_ITEMS") {
        Ok(FieldPocket::BattleItems)
    } else if str_eq(value, "POCKET_KEY_ITEMS") {
        Ok(FieldPocket::KeyItems)
    } else {
        let v = chars_of(value);
        assert(v@.subrange(0, v@.len() as int) =~= value@);
        match parse_int_range(&v, 0, v.len(), 10, false, 0, 255) {
            Some(n) => match FieldPocket::try_from_u8(n as u8) {
                Some(p) => Ok(p),
                None => {
                    let mut m = String::from_str("Invalid numeric field pocket '");
                    push_dec(&mut m, n as u64);
                    push_str(&mut m, "' (expected 0..=7)");
                    Err(m)
                },
            },
            None => {
                let mut m = String::from_str("Invalid field pocket '");
                push_str(&mut m, value);
                push_str(&mut m, "'");
                Err(m)
            },
        }
    }
}

fn battle_flag_exec(f: &str) -> (r: Option<u8>)
    ensures
        r == battle_flag_bits(f@),
{
    if str_eq(f, "BATTLE_POCKET_MASK_NONE") {
        Some(0)
    } else if str_eq(f, "BATTLE_POCKET_MASK_POKE_BALLS") {
        Some(0x01)
    } else if str_eq(f, "BATTLE_POCKET_MASK_BATTLE_ITEMS") {
        Some(0x02)
    } else if str_eq(f, "BATTLE_POCKET_MASK_RECOVER_HP") {
        Some(0x04)
    } else if str_eq(f, "BATTLE_POCKET_MASK_RECOVER_STATUS") {
        Some(0x08)
    } else if str_eq(f, "BATTLE_POCKET_MASK_RECOVER_PP") {
        Some(0x10)
    } else if str_eq(f, "BATTLE_POCKET_MASK_RECOVER_HP_STATUS") {
        Some(0x0c)
    } else {
        None
    }
}

fn battle_pocket_exec(value: &str) -> (r: Result<u8, String>)
    ensures
        text_result(r) == battle_pocket_of(value@),
{
    let v = chars_of(value);
    let n = v.len();
    assert(v@.subrange(0, n as int) =~= value@);
    let (a, z) = trim_bounds(&v, 0, n);
    let ghost t = v@.subrange(a as int, z as int);
    if a == z {
        return Ok(0);
    }
    match parse_int_range(&v, a, z, 10, false, 0, 255) {
        Some(bits) => {
            if bits < 32 {
                Ok(bits as u8)
            } else {
                let mut m = String::from_str("Invalid numeric battle pocket '");
                push_dec(&mut m, bits as u64);
                push_str(&mut m, "' (contains unsupported flag bits)");
                Err(m)
            }
        },
        None => {
            let mut acc: u8 = 0;
            let mut p = a;
            loop
                invariant
                    a <= p <= z <= v@.len(),
                    t == v@.subrange(a as int, z as int),
                    t == trim(value@),
                    t.len() > 0,
                    parse_u8(t) is None,
                    battle_flags_from(split_on(t, '|'), 0) == battle_flags_from(
                        split_on(v@.subrange(p as int, z as int), '|'),
                        acc,
                    ),
                decreases z - p,
            {
                let e = piece_end(&v, p, z, '|');
                let (sa, sz) = trim_bounds(&v, p, e);
                let flag = string_of(&v, sa, sz);
                let ghost parts = split_on(v@.subrange(p as int, z as int), '|');
                assert(parts[0] == v@.subrange(p as int, e as int));
                assert(trim(parts[0]) == flag@);
                assert(parts.len() > 0);
                let ghost acc0 = acc;
                match battle_flag_exec(flag.as_str()) {
                    None => {
                        let mut m = String::from_str("Invalid battle pocket flag '");
                        push_str(&mut m, flag.as_str());
                        push_str(&mut m, "'");
                        return Err(m);
                    },
                    Some(b) => {
                        acc = acc | b;
                    },
                }
                assert(battle_flags_from(parts, acc0) == battle_flags_from(parts.drop_first(), acc));
                if e == z {
                    assert(parts.drop_first() =~= Seq::<Seq<char>>::empty());
                    assert(battle_flags_from(parts.drop_first(), acc) == Ok::<u8, Seq<char>>(acc));
                    return Ok(acc);
                }
                assert(parts.drop_first() =~= split_on(v@.subrange(e + 1, z as int), '|'));
                p = e + 1;
            }
        },
    }
}

/// The item a row converts to, given what its hold effect and field use
/// function constants resolved to (`None`: not resolved): the hold
/// effect, the field pocket, the battle pocket and the field use function
/// are checked in that order, and the first problem is the error.
pub open spec fn item_outcome(d: DecompItemData, hold: Option<i64>, use_func: Option<i64>) -> Result<(i64, FieldPocket, u8, i64), Seq<char>> {
    if hold is None {
        Err(unresolved_msg(d.hold_effect@, "holdEffect"@, "item"@))
    } else {
        match field_pocket_of(d.field_pocket@) {
            Err(e) => Err(e),
            Ok(fp) => match battle_pocket_of(d.battle_pocket@) {
                Err(e) => Err(e),
                Ok(bp) => if use_func is None {
                    Err(unresolved_msg(d.field_use_func@, "fieldUseFunc"@, "item"@))
                } else {
                    Ok((hold->0, fp, bp, use_func->0))
                },
            },
        }
    }
}

/// `it` is the item a row converts to with these resolved values and pockets;
/// resolved values are cut to a byte.
pub open spec fn item_matches(d: DecompItemData, hold: i64, fp: FieldPocket, bp: u8, use_func: i64, it: ItemData) -> bool {
    &&& it.price == d.price
    &&& it.hold_effect == hold as u8
    &&& it.hold_effect_param == d.hold_effect_param
    &&& it.pluck_effect == d.pluck_effect
    &&& it.fling_effect == d.fling_effect
    &&& it.fling_power == d.fling_power
    &&& it.natural_gift_power == d.natural_gift_power
    &&& it.natural_gift_type == d.natural_gift_type
    &&& it.prevent_toss == d.prevent_toss
    &&& it.is_selectable == d.selectable
    &&& it.field_pocket == fp
    &&& it.battle_pocket.bits == bp
    &&& it.field_use_func == use_func as u8
    &&& it.battle_use_func == d.battle_use_func
    &&& it.party_use == d.party_use
    &&& it.party_use_param.spec_values() == party_values(d)
    &&& forall|k: int| 0 <= k < 56 ==> bit_of(it.party_use_param.spec_flags().bytes@, k) == party_flag(d, k)
}

/// The `(hold effect, field use function)` constants `resolve` gave, each
/// looked up only when what comes before it in the conversion succeeded.
pub open spec fn item_resolved_by<F: Fn(&str) -> Option<i64>>(
    resolve: F,
    d: DecompItemData,
    hold: Option<i64>,
    use_func: Option<i64>,
) -> bool {
    &&& exists|s: &str| s@ == d.hold_effect@ && call_ensures(resolve, (s,), hold)
    &&& (hold is Some && field_pocket_of(d.field_pocket@) is Ok && battle_pocket_of(d.battle_pocket@) is Ok)
        ==> exists|s: &str| s@ == d.field_use_func@ && call_ensures(resolve, (s,), use_func)
}

/// Law: each field of a converted item comes from its own source. The hold
/// effect is the value resolved for the hold effect constant and the field
/// use function the value resolved for the field use function constant (each
/// cut to a byte); the pockets are those their cells name; every other
/// number is the row's own; and the party use flags sit at fixed bits: the
/// status heals, guard spec, revives, level up and evolve at bits 0 to 11,
/// the stat stage counts four bits each from bit 12 (Attack, Defense, Special
/// Attack, Special Defense, Speed, accuracy) and the critical stage two bits
/// at 36, then the PP, HP, effort and friendship flags at bits 38 to 51.
pub proof fn item_conversion_fields(
    d: DecompItemData,
    hold: Option<i64>,
    use_func: Option<i64>,
    h: i64,
    fp: FieldPocket,
    bp: u8,
    u: i64,
    it: ItemData,
)
    requires
        item_outcome(d, hold, use_func) == Ok::<(i64, FieldPocket, u8, i64), Seq<char>>((h, fp, bp, u)),
        item_matches(d, h, fp, bp, u, it),
    ensures
        hold == Some(h),
        use_func == Some(u),
        it.hold_effect == h as u8,
        it.field_use_func == u as u8,
        field_pocket_of(d.field_pocket@) == Ok::<FieldPocket, Seq<char>>(it.field_pocket),
        battle_pocket_of(d.battle_pocket@) == Ok::<u8, Seq<char>>(it.battle_pocket.bits),
        it.price == d.price,
        it.hold_effect_param == d.hold_effect_param,
        it.pluck_effect == d.pluck_effect,
        it.fling_effect == d.fling_effect,
        it.fling_power == d.fling_power,
        it.natural_gift_power == d.natural_gift_power,
        it.natural_gift_type == d.natural_gift_type,
        it.prevent_toss == d.prevent_toss,
        it.is_selectable == d.selectable,
        it.battle_use_func == d.battle_use_func,
        it.party_use == d.party_use,
        it.party_use_param.spec_values().hp_evs == d.hp_evs,
        it.party_use_param.spec_values().atk_evs == d.atk_evs,
        it.party_use_param.spec_values().def_evs == d.def_evs,
        it.party_use_param.spec_values().speed_evs == d.speed_evs,
        it.party_use_param.spec_values().spatk_evs == d.spatk_evs,
        it.party_use_param.spec_values().spdef_evs == d.spdef_evs,
        it.party_use_param.spec_values().hp_restored == d.hp_restored,
        it.party_use_param.spec_values().pp_restored == d.pp_restored,
        it.party_use_param.spec_values().friendship_low == d.friendship_low,
        it.party_use_param.spec_values().friendship_med == d.friendship_med,
        it.party_use_param.spec_values().friendship_high == d.friendship_high,
        ({
            let f = it.party_use_param.spec_flags().bytes@;
            &&& bit_of(f, 0) == d.heal_sleep
            &&& bit_of(f, 1) == d.heal_poison
            &&& bit_of(f, 2) == d.heal_burn
            &&& bit_of(f, 3) == d.heal_freeze
            &&& bit_of(f, 4) == d.heal_paralysis
            &&& bit_of(f, 5) == d.heal_confusion
            &&& bit_of(f, 6) == d.heal_attract
            &&& bit_of(f, 7) == d.guard_spec
            &&& bit_of(f, 8) == d.revive
            &&& bit_of(f, 9) == d.revive_all
            &&& bit_of(f, 10) == d.level_up
            &&& bit_of(f, 11) == d.evolve
            &&& forall|j: int| 0 <= j < 4 ==> #[trigger] bit_of(f, 12 + j) == ((d.atk_stages >> (j as u8)) & 1 == 1)
            &&& forall|j: int| 0 <= j < 4 ==> #[trigger] bit_of(f, 16 + j) == ((d.def_stages >> (j as u8)) & 1 == 1)
            &&& forall|j: int| 0 <= j < 4 ==> #[trigger] bit_of(f, 20 + j) == ((d.spatk_stages >> (j as u8)) & 1 == 1)
            &&& forall|j: int| 0 <= j < 4 ==> #[trigger] bit_of(f, 24 + j) == ((d.spdef_stages >> (j as u8)) & 1 == 1)
            &&& forall|j: int| 0 <= j < 4 ==> #[trigger] bit_of(f, 28 + j) == ((d.speed_stages >> (j as u8)) & 1 == 1)
            &&& forall|j: int| 0 <= j < 4 ==> #[trigger] bit_of(f, 32 + j) == ((d.acc_stages >> (j as u8)) & 1 == 1)
            &&& forall|j: int| 0 <= j < 2 ==> #[trigger] bit_of(f, 36 + j) == ((d.crit_stages >> (j as u8)) & 1 == 1)
            &&& bit_of(f, 38) == d.pp_up
            &&& bit_of(f, 39) == d.pp_max
            &&& bit_of(f, 40) == d.pp_restore
            &&& bit_of(f, 41) == d.pp_restore_all
            &&& bit_of(f, 42) == d.hp_restore
            &&& bit_of(f, 43) == d.give_hp_evs
            &&& bit_of(f, 44) == d.give_atk_evs
            &&& bit_of(f, 45) == d.give_def_evs
            &&& bit_of(f, 46) == d.give_speed_evs
            &&& bit_of(f, 47) == d.give_spatk_evs
            &&& bit_of(f, 48) == d.give_spdef_evs
            &&& bit_of(f, 49) == d.give_friendship_low
            &&& bit_of(f, 50) == d.give_friendship_med
            &&& bit_of(f, 51) == d.give_friendship_high
        }),
{
    let f = it.party_use_param.spec_flags().bytes@;
    assert forall|k: int| 0 <= k < 52 implies bit_of(f, k) == #[trigger] party_flag(d, k) by {}
    assert(bit_of(f, 0) == party_flag(d, 0));
    assert(bit_of(f, 1) == party_flag(d, 1));
    assert(bit_of(f, 2) == party_flag(d, 2));
    assert(bit_of(f, 3) == party_flag(d, 3));
    assert(bit_of(f, 4) == party_flag(d, 4));
    assert(bit_of(f, 5) == party_flag(d, 5));
    assert(bit_of(f, 6) == party_flag(d, 6));
    assert(bit_of(f, 7) == party_flag(d, 7));
    assert(bit_of(f, 8) == party_flag(d, 8));
    assert(bit_of(f, 9) == party_flag(d, 9));
    assert(bit_of(f, 10) == party_flag(d, 10));
    assert(bit_of(f, 11) == party_flag(d, 11));
    assert forall|j: int| 0 <= j < 4 implies #[trigger] bit_of(f, 12 + j) == ((d.atk_stages >> (j as u8)) & 1 == 1) by {
        assert(bit_of(f, 12 + j) == party_flag(d, 12 + j));
    }
    assert forall|j: int| 0 <= j < 4 implies #[trigger] bit_of(f, 16 + j) == ((d.def_stages >> (j as u8)) & 1 == 1) by {
        assert(bit_of(f, 16 + j) == party_flag(d, 16 + j));
    }
    assert forall|j: int| 0 <= j < 4 implies #[trigger] bit_of(f, 20 + j) == ((d.spatk_stages >> (j as u8)) & 1 == 1) by {
        assert(bit_of(f, 20 + j) == party_flag(d, 20 + j));
    }
    assert forall|j: int| 0 <= j < 4 implies #[trigger] bit_of(f, 24 + j) == ((d.spdef_stages >> (j as u8)) & 1 == 1) by {
        assert(bit_of(f, 24 + j) == party_flag(d, 24 + j));
    }
    assert forall|j: int| 0 <= j < 4 implies #[trigger] bit_of(f, 28 + j) == ((d.speed_stages >> (j as u8)) & 1 == 1) by {
        assert(bit_of(f, 28 + j) == party_flag(d, 28 + j));
    }
    assert forall|j: int| 0 <= j < 4 implies #[trigger] bit_of(f, 32 + j) == ((d.acc_stages >> (j as u8)) & 1 == 1) by {
        assert(bit_of(f, 32 + j) == party_flag(d, 32 + j));
    }
    assert forall|j: int| 0 <= j < 2 implies #[trigger] bit_of(f, 36 + j) == ((d.crit_stages >> (j as u8)) & 1 == 1) by {
        assert(bit_of(f, 36 + j) == party_flag(d, 36 + j));
    }
    assert(bit_of(f, 38) == party_flag(d, 38));
    assert(bit_of(f, 39) == party_flag(d, 39));
    assert(bit_of(f, 40) == party_flag(d, 40));
    assert(bit_of(f, 41) == party_flag(d, 41));
    assert(bit_of(f, 42) == party_flag(d, 42));
    assert(bit_of(f, 43) == party_flag(d, 43));
    assert(bit_of(f, 44) == party_flag(d, 44));
    assert(bit_of(f, 45) == party_flag(d, 45));
    assert(bit_of(f, 46) == party_flag(d, 46));
    assert(bit_of(f, 47) == party_flag(d, 47));
    assert(bit_of(f, 48) == party_flag(d, 48));
    assert(bit_of(f, 49) == party_flag(d, 49));
    assert(bit_of(f, 50) == party_flag(d, 50));
    assert(bit_of(f, 51) == party_flag(d, 51));
}

impl DecompItemData {
    /// The party use flags of this row.
    fn party_flags(&self) -> (f: ItemPartyUseFlagsBits)
        requires
            stages_fit(*self),
        ensures
            forall|k: int| 0 <= k < 56 ==> bit_of(f.bytes@, k) == party_flag(*self, k),
    {
        let mut f = ItemPartyUseFlagsBits::new();
        assert forall|j: int| 0 <= j < 56 implies !bit_of(f.bytes@, j) by {
            let b = f.bytes@[j / 8];
            let s = (j % 8) as u8;
            assert(b == 0);
            assert((b >> s) & 1 == 0) by (bit_vector)
                requires b == 0u8;
        }
        let mut k: u8 = 0;
        while k < 56
            invariant
                k <= 56,
                forall|j: int| 0 <= j < k ==> bit_of(f.bytes@, j) == party_flag(*self, j),
                forall|j: int| k <= j < 56 ==> !bit_of(f.bytes@, j),
            decreases 56 - k,
        {
            let b = party_flag_exec(self, k);
            f = f.with_flag(k, b);
            k = k + 1;
        }
        f
    }

    /// Convert this row, given what its hold effect and field use function
    /// constants resolved to.
    pub fn to_item_data_resolved(&self, hold: Option<i64>, use_func: Option<i64>) -> (r: Result<ItemData, UxieError>)
        requires
            stages_fit(*self),
        ensures
            match r {
                Ok(it) => item_outcome(*self, hold, use_func) matches Ok((h, fp, bp, u))
                    && item_matches(*self, h, fp, bp, u, it),
                Err(e) => invalid_data_text(e) matches Some(m)
                    && item_outcome(*self, hold, use_func) == Err::<(i64, FieldPocket, u8, i64), Seq<char>>(m),
            },
    {
        let hold_effect = match hold {
            Some(v) => v,
            None => {
                return Err(unresolved_constant(self.hold_effect.as_str(), "holdEffect", "item"));
            },
        };
        let field_pocket = match field_pocket_exec(self.field_pocket.as_str()) {
            Ok(p) => p,
            Err(m) => {
                return Err(UxieError::invalid_data(m));
            },
        };
        let battle_pocket = match battle_pocket_exec(self.battle_pocket.as_str()) {
            Ok(b) => b,
            Err(m) => {
                return Err(UxieError::invalid_data(m));
            },
        };
        let field_use_func = match use_func {
            Some(v) => v,
            None => {
                return Err(unresolved_constant(self.field_use_func.as_str(), "fieldUseFunc", "item"));
            },
        };
        let flags = self.party_flags();
        let values = ItemPartyUseValues {
            hp_evs: self.hp_evs,
            atk_evs: self.atk_evs,
            def_evs: self.def_evs,
            speed_evs: self.speed_evs,
            spatk_evs: self.spatk_evs,
            spdef_evs: self.spdef_evs,
            hp_restored: self.hp_restored,
            pp_restored: self.pp_restored,
            friendship_low: self.friendship_low,
            friendship_med: self.friendship_med,
            friendship_high: self.friendship_high,
        };
        let party_use_param = ItemPartyUseParam::from_parts(flags, values);
        Ok(ItemData {
            price: self.price,
            hold_effect: hold_effect as u8,
            hold_effect_param: self.hold_effect_param,
            pluck_effect: self.pluck_effect,
            fling_effect: self.fling_effect,
            fling_power: self.fling_power,
            natural_gift_power: self.natural_gift_power,
            natural_gift_type: self.natural_gift_type,
            prevent_toss: self.prevent_toss,
            is_selectable: self.selectable,
            field_pocket,
            battle_pocket: BattlePocket { bits: battle_pocket },
            field_use_func: field_use_func as u8,
            battle_use_func: self.battle_use_func,
            party_use: self.party_use,
            party_use_param,
        })
    }

    /// Convert this row into binary item data, resolving its hold effect and
    /// field use function constants with `resolve_constant`. The hold effect
    /// is looked up first; the field use function only once the hold effect
    /// and both pockets were accepted.
    pub fn to_item_data<F: Fn(&str) -> Option<i64>>(&self, resolve_constant: F) -> (r: Result<ItemData, UxieError>)
        requires
            stages_fit(*self),
            forall|s: &str| call_requires(resolve_constant, (s,)),
        ensures
            exists|hold: Option<i64>, use_func: Option<i64>| {
                &&& item_resolved_by(resolve_constant, *self, hold, use_func)
                &&& match r {
                    Ok(it) => item_outcome(*self, hold, use_func) matches Ok((h, fp, bp, u))
                        && item_matches(*self, h, fp, bp, u, it),
                    Err(e) => invalid_data_text(e) matches Some(m)
                        && item_outcome(*self, hold, use_func) == Err::<(i64, FieldPocket, u8, i64), Seq<char>>(m),
                }
            },
    {
        let hold = resolve_constant(self.hold_effect.as_str());
        if hold.is_none() {
            let r = self.to_item_data_resolved(hold, None);
            assert(item_resolved_by(resolve_constant, *self, hold, None));
            return r;
        }
        let fp = field_pocket_exec(self.field_pocket.as_str());
        let bp = battle_pocket_exec(self.battle_pocket.as_str());
        if fp.is_err() || bp.is_err() {
            let r = self.to_item_data_resolved(hold, None);
            assert(item_resolved_by(resolve_constant, *self, hold, None));
            return r;
        }
        let use_func = resolve_constant(self.field_use_func.as_str());
        let r = self.to_item_data_resolved(hold, use_func);
        assert(item_resolved_by(resolve_constant, *self, hold, use_func));
        r
    }
}



// ----- the CSV rows -----

/// What a column holds.
#[derive(Debug, Clone, Copy, PartialEq, Eq, Structural)]
pub enum ColumnKind {
    Text,
    U8,
    U16,
    I8,
    Bool,
}

/// The value of one column of an item row.
pub ghost enum Cell {
    Text(Seq<char>),
    Num(int),
    Flag(bool),
}

/// How many columns an item row has besides its name.
pub open spec fn column_count() -> nat {
    59
}

pub open spec fn column_kind(j: int) -> ColumnKind {
    if j <= 0 {
        ColumnKind::U16
    } else if j <= 1 {
        ColumnKind::Text
    } else if j <= 7 {
        ColumnKind::U8
    } else if j <= 9 {
        ColumnKind::Bool
    } else if j <= 12 {
        ColumnKind::Text
    } else if j <= 14 {
        ColumnKind::U8
    } else if j <= 26 {
        ColumnKind::Bool
    } else if j <= 33 {
        ColumnKind::U8
    } else if j <= 47 {
        ColumnKind::Bool
    } else if j <= 53 {
        ColumnKind::I8
    } else if j <= 55 {
        ColumnKind::U8
    } else {
        ColumnKind::I8
    }
}

/// The column name a field is read from first.
pub open spec fn column_key(j: int) -> Seq<char> {
    if j == 0 {
        "price"@
    } else if j == 1 {
        "holdEffect"@
    } else if j == 2 {
        "holdEffectParam"@
    } else if j == 3 {
        "pluckEffect"@
    } else if j == 4 {
        "flingEffect"@
    } else if j == 5 {
        "flingPower"@
    } else if j == 6 {
        "naturalGiftPower"@
    } else if j == 7 {
        "naturalGiftType"@
    } else if j == 8 {
        "prevent_toss"@
    } else if j == 9 {
        "selectable"@
    } else if j == 10 {
        "fieldPocket"@
    } else if j == 11 {
        "battlePocket"@
    } else if j == 12 {
        "fieldUseFunc"@
    } else if j == 13 {
        "battleUseFunc"@
    } else if j == 14 {
        "partyUse"@
    } else if j == 15 {
        "healSleep"@
    } else if j == 16 {
        "healPoison"@
    } else if j == 17 {
        "healBurn"@
    } else if j == 18 {
        "healFreeze"@
    } else if j == 19 {
        "healParalysis"@
    } else if j == 20 {
        "healConfusion"@
    } else if j == 21 {
        "healAttract"@
    } else if j == 22 {
        "guardSpec"@
    } else if j == 23 {
        "revive"@
    } else if j == 24 {
        "reviveAll"@
    } else if j == 25 {
        "levelUp"@
    } else if j == 26 {
        "evolve"@
    } else if j == 27 {
        "atkStages"@
    } else if j == 28 {
        "defStages"@
    } else if j == 29 {
        "spatkStages"@
    } else if j == 30 {
        "spdefStages"@
    } else if j == 31 {
        "speedStages"@
    } else if j == 32 {
        "accStages"@
    } else if j == 33 {
        "critStages"@
    } else if j == 34 {
        "ppUp"@
    } else if j == 35 {
        "ppMax"@
    } else if j == 36 {
        "ppRestore"@
    } else if j == 37 {
        "ppRestoreAll"@
    } else if j == 38 {
        "hpRestore"@
    } else if j == 39 {
        "giveHPEVs"@
    } else if j == 40 {
        "giveAtkEVs"@
    } else if j == 41 {
        "giveDefEVs"@
    } else if j == 42 {
        "giveSpeedEVs"@
    } else if j == 43 {
        "giveSpAtkEVs"@
    } else if j == 44 {
        "giveSpDefEVs"@
    } else if j == 45 {
        "giveFriendshipLow"@
    } else if j == 46 {
        "giveFriendshipMed"@
    } else if j == 47 {
        "giveFriendshipHigh"@
    } else if j == 48 {
        "hpEVs"@
    } else if j == 49 {
        "atkEVs"@
    } else if j == 50 {
        "defEVs"@
    } else if j == 51 {
        "speedEVs"@
    } else if j == 52 {
        "spatkEVs"@
    } else if j == 53 {
        "spdefEVs"@
    } else if j == 54 {
        "hpRestored"@
    } else if j == 55 {
        "ppRestored"@
    } else if j == 56 {
        "friendshipLow"@
    } else if j == 57 {
        "friendshipMed"@
    } else {
        "friendshipHigh"@
    }
}

/// The other name a column may have.
pub open spec fn column_alias(j: int) -> Option<Seq<char>> {
    if j == 0 {
        None
    } else if j == 1 {
        None
    } else if j == 2 {
        None
    } else if j == 3 {
        None
    } else if j == 4 {
        None
    } else if j == 5 {
        None
    } else if j == 6 {
        None
    } else if j == 7 {
        None
    } else if j == 8 {
        None
    } else if j == 9 {
        None
    } else if j == 10 {
        None
    } else if j == 11 {
        None
    } else if j == 12 {
        None
    } else if j == 13 {
        None
    } else if j == 14 {
        None
    } else if j == 15 {
        Some("slp_heal"@)
    } else if j == 16 {
        Some("psn_heal"@)
    } else if j == 17 {
        Some("brn_heal"@)
    } else if j == 18 {
        Some("frz_heal"@)
    } else if j == 19 {
        Some("prz_heal"@)
    } else if j == 20 {
        Some("cfs_heal"@)
    } else if j == 21 {
        Some("inf_heal"@)
    } else if j == 22 {
        Some("guard_spec"@)
    } else if j == 23 {
        None
    } else if j == 24 {
        Some("revive_all"@)
    } else if j == 25 {
        Some("level_up"@)
    } else if j == 26 {
        None
    } else if j == 27 {
        Some("atk_stages"@)
    } else if j == 28 {
        Some("def_stages"@)
    } else if j == 29 {
        Some("spatk_stages"@)
    } else if j == 30 {
        Some("spdef_stages"@)
    } else if j == 31 {
        Some("speed_stages"@)
    } else if j == 32 {
        Some("accuracy_stages"@)
    } else if j == 33 {
        Some("critrate_stages"@)
    } else if j == 34 {
        Some("pp_up"@)
    } else if j == 35 {
        Some("pp_max"@)
    } else if j == 36 {
        Some("pp_restore"@)
    } else if j == 37 {
        Some("pp_restore_all"@)
    } else if j == 38 {
        Some("hp_restore"@)
    } else if j == 39 {
        Some("hp_ev_up"@)
    } else if j == 40 {
        Some("atk_ev_up"@)
    } else if j == 41 {
        Some("def_ev_up"@)
    } else if j == 42 {
        Some("speed_ev_up"@)
    } else if j == 43 {
        Some("spatk_ev_up"@)
    } else if j == 44 {
        Some("spdef_ev_up"@)
    } else if j == 45 {
        Some("friendship_mod_lo"@)
    } else if j == 46 {
        Some("friendship_mod_med"@)
    } else if j == 47 {
        Some("friendship_mod_hi"@)
    } else if j == 48 {
        Some("hp_ev_up_param"@)
    } else if j == 49 {
        Some("atk_ev_up_param"@)
    } else if j == 50 {
        Some("def_ev_up_param"@)
    } else if j == 51 {
        Some("speed_ev_up_param"@)
    } else if j == 52 {
        Some("spatk_ev_up_param"@)
    } else if j == 53 {
        Some("spdef_ev_up_param"@)
    } else if j == 54 {
        Some("hp_restore_param"@)
    } else if j == 55 {
        Some("pp_restore_param"@)
    } else if j == 56 {
        Some("friendship_mod_lo_param"@)
    } else if j == 57 {
        Some("friendship_mod_med_param"@)
    } else {
        Some("friendship_mod_hi_param"@)
    }
}

fn column_kind_exec(j: usize) -> (k: ColumnKind)
    ensures
        k == column_kind(j as int),
{
    if j <= 0 {
        ColumnKind::U16
    } else if j <= 1 {
        ColumnKind::Text
    } else if j <= 7 {
        ColumnKind::U8
    } else if j <= 9 {
        ColumnKind::Bool
    } else if j <= 12 {
        ColumnKind::Text
    } else if j <= 14 {
        ColumnKind::U8
    } else if j <= 26 {
        ColumnKind::Bool
    } else if j <= 33 {
        ColumnKind::U8
    } else if j <= 47 {
        ColumnKind::Bool
    } else if j <= 53 {
        ColumnKind::I8
    } else if j <= 55 {
        ColumnKind::U8
    } else {
        ColumnKind::I8
    }
}

fn column_key_exec(j: usize) -> (k: &'static str)
    ensures
        k@ == column_key(j as int),
{
    if j == 0 {
        "price"
    } else if j == 1 {
        "holdEffect"
    } else if j == 2 {
        "holdEffectParam"
    } else if j == 3 {
        "pluckEffect"
    } else if j == 4 {
        "flingEffect"
    } else if j == 5 {
        "flingPower"
    } else if j == 6 {
        "naturalGiftPower"
    } else if j == 7 {
        "naturalGiftType"
    } else if j == 8 {
        "prevent_toss"
    } else if j == 9 {
        "selectable"
    } else if j == 10 {
        "fieldPocket"
    } else if j == 11 {
        "battlePocket"
    } else if j == 12 {
        "fieldUseFunc"
    } else if j == 13 {
        "battleUseFunc"
    } else if j == 14 {
        "partyUse"
    } else if j == 15 {
        "healSleep"
    } else if j == 16 {
        "healPoison"
    } else if j == 17 {
        "healBurn"
    } else if j == 18 {
        "healFreeze"
    } else if j == 19 {
        "healParalysis"
    } else if j == 20 {
        "healConfusion"
    } else if j == 21 {
        "healAttract"
    } else if j == 22 {
        "guardSpec"
    } else if j == 23 {
        "revive"
    } else if j == 24 {
        "reviveAll"
    } else if j == 25 {
        "levelUp"
    } else if j == 26 {
        "evolve"
    } else if j == 27 {
        "atkStages"
    } else if j == 28 {
        "defStages"
    } else if j == 29 {
        "spatkStages"
    } else if j == 30 {
        "spdefStages"
    } else if j == 31 {
        "speedStages"
    } else if j == 32 {
        "accStages"
    } else if j == 33 {
        "critStages"
    } else if j == 34 {
        "ppUp"
    } else if j == 35 {
        "ppMax"
    } else if j == 36 {
        "ppRestore"
    } else if j == 37 {
        "ppRestoreAll"
    } else if j == 38 {
        "hpRestore"
    } else if j == 39 {
        "giveHPEVs"
    } else if j == 40 {
        "giveAtkEVs"
    } else if j == 41 {
        "giveDefEVs"
    } else if j == 42 {
        "giveSpeedEVs"
    } else if j == 43 {
        "giveSpAtkEVs"
    } else if j == 44 {
        "giveSpDefEVs"
    } else if j == 45 {
        "giveFriendshipLow"
    } else if j == 46 {
        "giveFriendshipMed"
    } else if j == 47 {
        "giveFriendshipHigh"
    } else if j == 48 {
        "hpEVs"
    } else if j == 49 {
        "atkEVs"
    } else if j == 50 {
        "defEVs"
    } else if j == 51 {
        "speedEVs"
    } else if j == 52 {
        "spatkEVs"
    } else if j == 53 {
        "spdefEVs"
    } else if j == 54 {
        "hpRestored"
    } else if j == 55 {
        "ppRestored"
    } else if j == 56 {
        "friendshipLow"
    } else if j == 57 {
        "friendshipMed"
    } else {
        "friendshipHigh"
    }
}

fn column_alias_exec(j: usize) -> (k: Option<&'static str>)
    ensures
        match k {
            Some(a) => column_alias(j as int) == Some(a@),
            None => column_alias(j as int) is None,
        },
{
    if j == 0 {
        None
    } else if j == 1 {
        None
    } else if j == 2 {
        None
    } else if j == 3 {
        None
    } else if j == 4 {
        None
    } else if j == 5 {
        None
    } else if j == 6 {
        None
    } else if j == 7 {
        None
    } else if j == 8 {
        None
    } else if j == 9 {
        None
    } else if j == 10 {
        None
    } else if j == 11 {
        None
    } else if j == 12 {
        None
    } else if j == 13 {
        None
    } else if j == 14 {
        None
    } else if j == 15 {
        Some("slp_heal")
    } else if j == 16 {
        Some("psn_heal")
    } else if j == 17 {
        Some("brn_heal")
    } else if j == 18 {
        Some("frz_heal")
    } else if j == 19 {
        Some("prz_heal")
    } else if j == 20 {
        Some("cfs_heal")
    } else if j == 21 {
        Some("inf_heal")
    } else if j == 22 {
        Some("guard_spec")
    } else if j == 23 {
        None
    } else if j == 24 {
        Some("revive_all")
    } else if j == 25 {
        Some("level_up")
    } else if j == 26 {
        None
    } else if j == 27 {
        Some("atk_stages")
    } else if j == 28 {
        Some("def_stages")
    } else if j == 29 {
        Some("spatk_stages")
    } else if j == 30 {
        Some("spdef_stages")
    } else if j == 31 {
        Some("speed_stages")
    } else if j == 32 {
        Some("accuracy_stages")
    } else if j == 33 {
        Some("critrate_stages")
    } else if j == 34 {
        Some("pp_up")
    } else if j == 35 {
        Some("pp_max")
    } else if j == 36 {
        Some("pp_restore")
    } else if j == 37 {
        Some("pp_restore_all")
    } else if j == 38 {
        Some("hp_restore")
    } else if j == 39 {
        Some("hp_ev_up")
    } else if j == 40 {
        Some("atk_ev_up")
    } else if j == 41 {
        Some("def_ev_up")
    } else if j == 42 {
        Some("speed_ev_up")
    } else if j == 43 {
        Some("spatk_ev_up")
    } else if j == 44 {
        Some("spdef_ev_up")
    } else if j == 45 {
        Some("friendship_mod_lo")
    } else if j == 46 {
        Some("friendship_mod_med")
    } else if j == 47 {
        Some("friendship_mod_hi")
    } else if j == 48 {
        Some("hp_ev_up_param")
    } else if j == 49 {
        Some("atk_ev_up_param")
    } else if j == 50 {
        Some("def_ev_up_param")
    } else if j == 51 {
        Some("speed_ev_up_param")
    } else if j == 52 {
        Some("spatk_ev_up_param")
    } else if j == 53 {
        Some("spdef_ev_up_param")
    } else if j == 54 {
        Some("hp_restore_param")
    } else if j == 55 {
        Some("pp_restore_param")
    } else if j == 56 {
        Some("friendship_mod_lo_param")
    } else if j == 57 {
        Some("friendship_mod_med_param")
    } else {
        Some("friendship_mod_hi_param")
    }
}

/// The column and value a field is read from: its first name that the row
/// has, then its other name.
pub open spec fn present(fields: Seq<(Seq<char>, Seq<char>)>, j: int) -> Option<(Seq<char>, Seq<char>)> {
    match field_lookup(fields, column_key(j)) {
        Some(v) => Some((column_key(j), v)),
        None => match column_alias(j) {
            Some(a) => match field_lookup(fields, a) {
                Some(v) => Some((a, v)),
                None => None,
            },
            None => None,
        },
    }
}

/// ASCII letters lowered.
pub open spec fn ascii_lower(s: Seq<char>) -> Seq<char> {
    s.map_values(|c: char| if 'A' <= c && c <= 'Z' { ((c as u32) + 32) as char } else { c })
}

/// A boolean cell: empty, `false`, `0` or `no`, or `true`, `1` or `yes`, in
/// any ASCII case and surrounded by any white space.
pub open spec fn bool_cell(v: Seq<char>, row: nat, column: Seq<char>) -> Result<Cell, Seq<char>> {
    let t = ascii_lower(trim(v));
    if t == ""@ || t == "false"@ || t == "0"@ || t == "no"@ {
        Ok(Cell::Flag(false))
    } else if t == "true"@ || t == "1"@ || t == "yes"@ {
        Ok(Cell::Flag(true))
    } else {
        Err("Invalid boolean value '"@ + v + "' for column '"@ + column + "' at row "@ + dec(row))
    }
}

/// The range and signedness of a numeric column.
pub open spec fn kind_range(k: ColumnKind) -> (bool, int, int) {
    match k {
        ColumnKind::U16 => (false, 0, 65535),
        ColumnKind::I8 => (true, -128, 127),
        _ => (false, 0, 255),
    }
}

/// A numeric cell: empty for 0, else a decimal literal of the column's type.
pub open spec fn number_cell(v: Seq<char>, row: nat, column: Seq<char>, k: ColumnKind) -> Result<Cell, Seq<char>> {
    let t = trim(v);
    if t.len() == 0 {
        Ok(Cell::Num(0))
    } else {
        match int_from_str(t, 10, kind_range(k).0, kind_range(k).1, kind_range(k).2) {
            Ok(x) => Ok(Cell::Num(x)),
            Err(e) => Err("Invalid value '"@ + t + "' for column '"@ + column + "' at row "@ + dec(row)
                + ": "@ + int_error_text(e)),
        }
    }
}

/// Column `j` of a row: a missing column reads as empty.
pub open spec fn cell_of(fields: Seq<(Seq<char>, Seq<char>)>, row: nat, j: int) -> Result<Cell, Seq<char>> {
    match column_kind(j) {
        ColumnKind::Text => Ok(Cell::Text(
            match present(fields, j) {
                Some((_, v)) => v,
                None => Seq::empty(),
            },
        )),
        ColumnKind::Bool => match present(fields, j) {
            Some((c, v)) => bool_cell(v, row, c),
            None => Ok(Cell::Flag(false)),
        },
        k => match present(fields, j) {
            Some((c, v)) => number_cell(v, row, c, k),
            None => Ok(Cell::Num(0)),
        },
    }
}

/// The first `n` columns of a row, read in order; the first refused one is
/// the error.
pub open spec fn row_cells(fields: Seq<(Seq<char>, Seq<char>)>, row: nat, n: nat) -> Result<Seq<Cell>, Seq<char>>
    decreases n,
{
    if n == 0 {
        Ok(Seq::empty())
    } else {
        match row_cells(fields, row, (n - 1) as nat) {
            Err(e) => Err(e),
            Ok(cs) => match cell_of(fields, row, n - 1) {
                Ok(c) => Ok(cs.push(c)),
                Err(e) => Err(e),
            },
        }
    }
}

/// The `(column, value)` pairs of a row: each header cell with the value
/// below it, both trimmed; a row shorter than the header lacks the rest.
pub open spec fn row_fields(header: Seq<Seq<char>>, values: Seq<Seq<char>>) -> Seq<(Seq<char>, Seq<char>)> {
    Seq::new(
        if header.len() <= values.len() { header.len() } else { values.len() },
        |i: int| (trim(header[i]), trim(values[i])),
    )
}

/// The name of a row's item (its `item` column).
pub open spec fn row_name(fields: Seq<(Seq<char>, Seq<char>)>) -> Seq<char> {
    match field_lookup(fields, "item"@) {
        Some(v) => v,
        None => Seq::empty(),
    }
}

/// What a CSV row reads as: nothing for an empty row or one without an item
/// name, else the name and the columns.
pub open spec fn row_outcome(header: Seq<Seq<char>>, values: Seq<Seq<char>>, row: nat) -> Result<Option<(Seq<char>, Seq<Cell>)>, Seq<char>> {
    let fields = row_fields(header, values);
    if values.len() == 0 || row_name(fields).len() == 0 {
        Ok(None)
    } else {
        match row_cells(fields, row, column_count()) {
            Ok(cs) => Ok(Some((row_name(fields), cs))),
            Err(e) => Err(e),
        }
    }
}

/// `d` holds the name and the columns of a row.
pub open spec fn item_holds(d: DecompItemData, name: Seq<char>, cells: Seq<Cell>) -> bool {
    &&& d.name@ == name
    &&& cells.len() == column_count()

    &&& cells[0] == Cell::Num(d.price as int)
    &&& cells[1] == Cell::Text(d.hold_effect@)
    &&& cells[2] == Cell::Num(d.hold_effect_param as int)
    &&& cells[3] == Cell::Num(d.pluck_effect as int)
    &&& cells[4] == Cell::Num(d.fling_effect as int)
    &&& cells[5] == Cell::Num(d.fling_power as int)
    &&& cells[6] == Cell::Num(d.natural_gift_power as int)
    &&& cells[7] == Cell::Num(d.natural_gift_type as int)
    &&& cells[8] == Cell::Flag(d.prevent_toss)
    &&& cells[9] == Cell::Flag(d.selectable)
    &&& cells[10] == Cell::Text(d.field_pocket@)
    &&& cells[11] == Cell::Text(d.battle_pocket@)
    &&& cells[12] == Cell::Text(d.field_use_func@)
    &&& cells[13] == Cell::Num(d.battle_use_func as int)
    &&& cells[14] == Cell::Num(d.party_use as int)
    &&& cells[15] == Cell::Flag(d.heal_sleep)
    &&& cells[16] == Cell::Flag(d.heal_poison)
    &&& cells[17] == Cell::Flag(d.heal_burn)
    &&& cells[18] == Cell::Flag(d.heal_freeze)
    &&& cells[19] == Cell::Flag(d.heal_paralysis)
    &&& cells[20] == Cell::Flag(d.heal_confusion)
    &&& cells[21] == Cell::Flag(d.heal_attract)
    &&& cells[22] == Cell::Flag(d.guard_spec)
    &&& cells[23] == Cell::Flag(d.revive)
    &&& cells[24] == Cell::Flag(d.revive_all)
    &&& cells[25] == Cell::Flag(d.level_up)
    &&& cells[26] == Cell::Flag(d.evolve)
    &&& cells[27] == Cell::Num(d.atk_stages as int)
    &&& cells[28] == Cell::Num(d.def_stages as int)
    &&& cells[29] == Cell::Num(d.spatk_stages as int)
    &&& cells[30] == Cell::Num(d.spdef_stages as int)
    &&& cells[31] == Cell::Num(d.speed_stages as int)
    &&& cells[32] == Cell::Num(d.acc_stages as int)
    &&& cells[33] == Cell::Num(d.crit_stages as int)
    &&& cells[34] == Cell::Flag(d.pp_up)
    &&& cells[35] == Cell::Flag(d.pp_max)
    &&& cells[36] == Cell::Flag(d.pp_restore)
    &&& cells[37] == Cell::Flag(d.pp_restore_all)
    &&& cells[38] == Cell::Flag(d.hp_restore)
    &&& cells[39] == Cell::Flag(d.give_hp_evs)
    &&& cells[40] == Cell::Flag(d.give_atk_evs)
    &&& cells[41] == Cell::Flag(d.give_def_evs)
    &&& cells[42] == Cell::Flag(d.give_speed_evs)
    &&& cells[43] == Cell::Flag(d.give_spatk_evs)
    &&& cells[44] == Cell::Flag(d.give_spdef_evs)
    &&& cells[45] == Cell::Flag(d.give_friendship_low)
    &&& cells[46] == Cell::Flag(d.give_friendship_med)
    &&& cells[47] == Cell::Flag(d.give_friendship_high)
    &&& cells[48] == Cell::Num(d.hp_evs as int)
    &&& cells[49] == Cell::Num(d.atk_evs as int)
    &&& cells[50] == Cell::Num(d.def_evs as int)
    &&& cells[51] == Cell::Num(d.speed_evs as int)
    &&& cells[52] == Cell::Num(d.spatk_evs as int)
    &&& cells[53] == Cell::Num(d.spdef_evs as int)
    &&& cells[54] == Cell::Num(d.hp_restored as int)
    &&& cells[55] == Cell::Num(d.pp_restored as int)
    &&& cells[56] == Cell::Num(d.friendship_low as int)
    &&& cells[57] == Cell::Num(d.friendship_med as int)
    &&& cells[58] == Cell::Num(d.friendship_high as int)
}

pub open spec fn strings_view(v: Seq<String>) -> Seq<Seq<char>> {
    v.map_values(|s: String| s@)
}

enum CellValue {
    Text(String),
    Num(i64),
    Flag(bool),
}

spec fn cells_view(v: Seq<CellValue>) -> Seq<Cell> {
    v.map_values(|c: CellValue| cell_view(c))
}

spec fn cell_view(c: CellValue) -> Cell {
    match c {
        CellValue::Text(s) => Cell::Text(s@),
        CellValue::Num(x) => Cell::Num(x as int),
        CellValue::Flag(b) => Cell::Flag(b),
    }
}

/// A cell of the kind of its column, with a number in the column's range.
spec fn cell_fits(c: CellValue, k: ColumnKind) -> bool {
    match k {
        ColumnKind::Text => c is Text,
        ColumnKind::Bool => c is Flag,
        k => c matches CellValue::Num(x) && kind_range(k).1 <= x <= kind_range(k).2,
    }
}

fn lower_ascii(s: &str) -> (r: String)
    ensures
        r@ == ascii_lower(s@),
{
    let v = chars_of(s);
    let mut out = String::new();
    let mut i: usize = 0;
    while i < v.len()
        invariant
            v@ == s@,
            i <= v@.len(),
            out@ == ascii_lower(v@.take(i as int)),
        decreases v@.len() - i,
    {
        let c = v[i];
        let l = if 'A' <= c && c <= 'Z' {
            let b: u8 = (c as u8) + 32;
            b as char
        } else {
            c
        };
        push_char(&mut out, l);
        assert(ascii_lower(v@.take(i + 1)) =~= ascii_lower(v@.take(i as int)).push(l));
        i = i + 1;
    }
    assert(v@.take(v@.len() as int) =~= v@);
    out
}

fn bool_cell_exec(v: &str, row: usize, column: &str) -> (r: Result<CellValue, String>)
    ensures
        match r {
            Ok(c) => bool_cell(v@, row as nat, column@) == Ok::<Cell, Seq<char>>(cell_view(c)) && c is Flag,
            Err(m) => bool_cell(v@, row as nat, column@) == Err::<Cell, Seq<char>>(m@),
        },
{
    let c = chars_of(v);
    let n = c.len();
    assert(c@.subrange(0, n as int) =~= v@);
    let (a, z) = trim_bounds(&c, 0, n);
    let t = string_of(&c, a, z);
    let l = lower_ascii(t.as_str());
    let ls = l.as_str();
    if str_eq(ls, "") || str_eq(ls, "false") || str_eq(ls, "0") || str_eq(ls, "no") {
        Ok(CellValue::Flag(false))
    } else if str_eq(ls, "true") || str_eq(ls, "1") || str_eq(ls, "yes") {
        Ok(CellValue::Flag(true))
    } else {
        let mut m = String::from_str("Invalid boolean value '");
        push_str(&mut m, v);
        push_str(&mut m, "' for column '");
        push_str(&mut m, column);
        push_str(&mut m, "' at row ");
        push_dec(&mut m, row as u64);
        Err(m)
    }
}

fn number_cell_exec(v: &str, row: usize, column: &str, k: ColumnKind) -> (r: Result<CellValue, String>)
    requires
        k == ColumnKind::U8 || k == ColumnKind::U16 || k == ColumnKind::I8,
    ensures
        match r {
            Ok(c) => number_cell(v@, row as nat, column@, k) == Ok::<Cell, Seq<char>>(cell_view(c)) && cell_fits(c, k),
            Err(m) => number_cell(v@, row as nat, column@, k) == Err::<Cell, Seq<char>>(m@),
        },
{
    let c = chars_of(v);
    let n = c.len();
    assert(c@.subrange(0, n as int) =~= v@);
    let (a, z) = trim_bounds(&c, 0, n);
    if a == z {
        return Ok(CellValue::Num(0));
    }
    let (signed, lo, hi): (bool, i128, i128) = match k {
        ColumnKind::U16 => (false, 0, 65535),
        ColumnKind::I8 => (true, -128, 127),
        _ => (false, 0, 255),
    };
    match parse_int_detailed(&c, a, z, 10, signed, lo, hi) {
        Ok(x) => Ok(CellValue::Num(x as i64)),
        Err(e) => {
            let mut m = String::from_str("Invalid value '");
            let t = string_of(&c, a, z);
            push_str(&mut m, t.as_str());
            push_str(&mut m, "' for column '");
            push_str(&mut m, column);
            push_str(&mut m, "' at row ");
            push_dec(&mut m, row as u64);
            push_str(&mut m, ": ");
            push_str(&mut m, int_error_message(e));
            Err(m)
        },
    }
}

fn present_exec(fields: &Vec<(String, String)>, j: usize) -> (r: Option<(&'static str, String)>)
    ensures
        match r {
            Some((c, v)) => present(field_view(fields@), j as int) == Some((c@, v@)),
            None => present(field_view(fields@), j as int) is None,
        },
{
    let key = column_key_exec(j);
    match lookup_field(fields, key) {
        Some(v) => Some((key, v)),
        None => match column_alias_exec(j) {
            Some(a) => match lookup_field(fields, a) {
                Some(v) => Some((a, v)),
                None => None,
            },
            None => None,
        },
    }
}

fn cell_exec(fields: &Vec<(String, String)>, row: usize, j: usize) -> (r: Result<CellValue, String>)
    ensures
        match r {
            Ok(c) => cell_of(field_view(fields@), row as nat, j as int) == Ok::<Cell, Seq<char>>(cell_view(c))
                && cell_fits(c, column_kind(j as int)),
            Err(m) => cell_of(field_view(fields@), row as nat, j as int) == Err::<Cell, Seq<char>>(m@),
        },
{
    let k = column_kind_exec(j);
    let found = present_exec(fields, j);
    match k {
        ColumnKind::Text => match found {
            Some((_, v)) => Ok(CellValue::Text(v)),
            None => Ok(CellValue::Text(String::new())),
        },
        ColumnKind::Bool => match found {
            Some((c, v)) => bool_cell_exec(v.as_str(), row, c),
            None => Ok(CellValue::Flag(false)),
        },
        _ => match found {
            Some((c, v)) => number_cell_exec(v.as_str(), row, c, k),
            None => Ok(CellValue::Num(0)),
        },
    }
}

fn text_of(c: &CellValue) -> (s: String)
    requires
        c is Text,
    ensures
        Cell::Text(s@) == cell_view(*c),
{
    match c {
        CellValue::Text(s) => s.clone(),
        _ => String::new(),
    }
}

fn flag_of(c: &CellValue) -> (b: bool)
    requires
        c is Flag,
    ensures
        Cell::Flag(b) == cell_view(*c),
{
    match c {
        CellValue::Flag(b) => *b,
        _ => false,
    }
}

fn u8_of(c: &CellValue) -> (b: u8)
    requires
        *c matches CellValue::Num(x) && 0 <= x <= 255,
    ensures
        Cell::Num(b as int) == cell_view(*c),
{
    match c {
        CellValue::Num(x) => *x as u8,
        _ => 0,
    }
}

fn u16_of(c: &CellValue) -> (b: u16)
    requires
        *c matches CellValue::Num(x) && 0 <= x <= 65535,
    ensures
        Cell::Num(b as int) == cell_view(*c),
{
    match c {
        CellValue::Num(x) => *x as u16,
        _ => 0,
    }
}

fn i8_of(c: &CellValue) -> (b: i8)
    requires
        *c matches CellValue::Num(x) && -128 <= x <= 127,
    ensures
        Cell::Num(b as int) == cell_view(*c),
{
    match c {
        CellValue::Num(x) => *x as i8,
        _ => 0,
    }
}

/// Read the columns of a row from its `(column, value)` pairs.
fn item_from_fields(fields: &Vec<(String, String)>, name: String, row: usize) -> (r: Result<DecompItemData, String>)
    ensures
        match r {
            Ok(d) => row_cells(field_view(fields@), row as nat, column_count()) matches Ok(cs)
                && item_holds(d, name@, cs),
            Err(m) => row_cells(field_view(fields@), row as nat, column_count()) == Err::<Seq<Cell>, Seq<char>>(m@),
        },
{
    let ghost fs = field_view(fields@);
    let mut cells: Vec<CellValue> = Vec::new();
    assert(cells_view(cells@) =~= Seq::<Cell>::empty());
    let mut j: usize = 0;
    while j < 59
        invariant
            j <= 59,
            fs == field_view(fields@),
            cells@.len() == j,
            row_cells(fs, row as nat, j as nat) == Ok::<Seq<Cell>, Seq<char>>(cells_view(cells@)),
            forall|i: int| 0 <= i < j ==> cell_fits(#[trigger] cells@[i], column_kind(i)),
        decreases 59 - j,
    {
        match cell_exec(fields, row, j) {
            Ok(c) => {
                let ghost before = cells@;
                cells.push(c);
                assert(cells_view(cells@) =~= cells_view(before).push(cell_view(c)));
            },
            Err(m) => {
                proof {
                    lemma_row_error_stays(fs, row as nat, (j + 1) as nat, column_count());
                }
                return Err(m);
            },
        }
        j = j + 1;
    }
    let ghost cs = cells_view(cells@);
    Ok(build_item(&cells, name))
}

/// The item row the cells of a row make.
fn build_item(cells: &Vec<CellValue>, name: String) -> (d: DecompItemData)
    requires
        cells@.len() == column_count(),
        forall|i: int| 0 <= i < column_count() ==> cell_fits(#[trigger] cells@[i], column_kind(i)),
    ensures
        item_holds(d, name@, cells_view(cells@)),
{

    assert(cell_fits(cells@[0], column_kind(0)));
    assert(cell_fits(cells@[1], column_kind(1)));
    assert(cell_fits(cells@[2], column_kind(2)));
    assert(cell_fits(cells@[3], column_kind(3)));
    assert(cell_fits(cells@[4], column_kind(4)));
    assert(cell_fits(cells@[5], column_kind(5)));
    assert(cell_fits(cells@[6], column_kind(6)));
    assert(cell_fits(cells@[7], column_kind(7)));
    assert(cell_fits(cells@[8], column_kind(8)));
    assert(cell_fits(cells@[9], column_kind(9)));
    assert(cell_fits(cells@[10], column_kind(10)));
    assert(cell_fits(cells@[11], column_kind(11)));
    assert(cell_fits(cells@[12], column_kind(12)));
    assert(cell_fits(cells@[13], column_kind(13)));
    assert(cell_fits(cells@[14], column_kind(14)));
    assert(cell_fits(cells@[15], column_kind(15)));
    assert(cell_fits(cells@[16], column_kind(16)));
    assert(cell_fits(cells@[17], column_kind(17)));
    assert(cell_fits(cells@[18], column_kind(18)));
    assert(cell_fits(cells@[19], column_kind(19)));
    assert(cell_fits(cells@[20], column_kind(20)));
    assert(cell_fits(cells@[21], column_kind(21)));
    assert(cell_fits(cells@[22], column_kind(22)));
    assert(cell_fits(cells@[23], column_kind(23)));
    assert(cell_fits(cells@[24], column_kind(24)));
    assert(cell_fits(cells@[25], column_kind(25)));
    assert(cell_fits(cells@[26], column_kind(26)));
    assert(cell_fits(cells@[27], column_kind(27)));
    assert(cell_fits(cells@[28], column_kind(28)));
    assert(cell_fits(cells@[29], column_kind(29)));
    assert(cell_fits(cells@[30], column_kind(30)));
    assert(cell_fits(cells@[31], column_kind(31)));
    assert(cell_fits(cells@[32], column_kind(32)));
    assert(cell_fits(cells@[33], column_kind(33)));
    assert(cell_fits(cells@[34], column_kind(34)));
    assert(cell_fits(cells@[35], column_kind(35)));
    assert(cell_fits(cells@[36], column_kind(36)));
    assert(cell_fits(cells@[37], column_kind(37)));
    assert(cell_fits(cells@[38], column_kind(38)));
    assert(cell_fits(cells@[39], column_kind(39)));
    assert(cell_fits(cells@[40], column_kind(40)));
    assert(cell_fits(cells@[41], column_kind(41)));
    assert(cell_fits(cells@[42], column_kind(42)));
    assert(cell_fits(cells@[43], column_kind(43)));
    assert(cell_fits(cells@[44], column_kind(44)));
    assert(cell_fits(cells@[45], column_kind(45)));
    assert(cell_fits(cells@[46], column_kind(46)));
    assert(cell_fits(cells@[47], column_kind(47)));
    assert(cell_fits(cells@[48], column_kind(48)));
    assert(cell_fits(cells@[49], column_kind(49)));
    assert(cell_fits(cells@[50], column_kind(50)));
    assert(cell_fits(cells@[51], column_kind(51)));
    assert(cell_fits(cells@[52], column_kind(52)));
    assert(cell_fits(cells@[53], column_kind(53)));
    assert(cell_fits(cells@[54], column_kind(54)));
    assert(cell_fits(cells@[55], column_kind(55)));
    assert(cell_fits(cells@[56], column_kind(56)));
    assert(cell_fits(cells@[57], column_kind(57)));
    assert(cell_fits(cells@[58], column_kind(58)));
    let price = u16_of(&cells[0]);
    let hold_effect = text_of(&cells[1]);
    let hold_effect_param = u8_of(&cells[2]);
    let pluck_effect = u8_of(&cells[3]);
    let fling_effect = u8_of(&cells[4]);
    let fling_power = u8_of(&cells[5]);
    let natural_gift_power = u8_of(&cells[6]);
    let natural_gift_type = u8_of(&cells[7]);
    let prevent_toss = flag_of(&cells[8]);
    let selectable = flag_of(&cells[9]);
    let field_pocket = text_of(&cells[10]);
    let battle_pocket = text_of(&cells[11]);
    let field_use_func = text_of(&cells[12]);
    let battle_use_func = u8_of(&cells[13]);
    let party_use = u8_of(&cells[14]);
    let heal_sleep = flag_of(&cells[15]);
    let heal_poison = flag_of(&cells[16]);
    let heal_burn = flag_of(&cells[17]);
    let heal_freeze = flag_of(&cells[18]);
    let heal_paralysis = flag_of(&cells[19]);
    let heal_confusion = flag_of(&cells[20]);
    let heal_attract = flag_of(&cells[21]);
    let guard_spec = flag_of(&cells[22]);
    let revive = flag_of(&cells[23]);
    let revive_all = flag_of(&cells[24]);
    let level_up = flag_of(&cells[25]);
    let evolve = flag_of(&cells[26]);
    let atk_stages = u8_of(&cells[27]);
    let def_stages = u8_of(&cells[28]);
    let spatk_stages = u8_of(&cells[29]);
    let spdef_stages = u8_of(&cells[30]);
    let speed_stages = u8_of(&cells[31]);
    let acc_stages = u8_of(&cells[32]);
    let crit_stages = u8_of(&cells[33]);
    let pp_up = flag_of(&cells[34]);
    let pp_max = flag_of(&cells[35]);
    let pp_restore = flag_of(&cells[36]);
    let pp_restore_all = flag_of(&cells[37]);
    let hp_restore = flag_of(&cells[38]);
    let give_hp_evs = flag_of(&cells[39]);
    let give_atk_evs = flag_of(&cells[40]);
    let give_def_evs = flag_of(&cells[41]);
    let give_speed_evs = flag_of(&cells[42]);
    let give_spatk_evs = flag_of(&cells[43]);
    let give_spdef_evs = flag_of(&cells[44]);
    let give_friendship_low = flag_of(&cells[45]);
    let give_friendship_med = flag_of(&cells[46]);
    let give_friendship_high = flag_of(&cells[47]);
    let hp_evs = i8_of(&cells[48]);
    let atk_evs = i8_of(&cells[49]);
    let def_evs = i8_of(&cells[50]);
    let speed_evs = i8_of(&cells[51]);
    let spatk_evs = i8_of(&cells[52]);
    let spdef_evs = i8_of(&cells[53]);
    let hp_restored = u8_of(&cells[54]);
    let pp_restored = u8_of(&cells[55]);
    let friendship_low = i8_of(&cells[56]);
    let friendship_med = i8_of(&cells[57]);
    let friendship_high = i8_of(&cells[58]);
    let ghost cs = cells_view(cells@);
    proof {
        assert(cs[0] == cell_view(cells@[0]));
        assert(cs[1] == cell_view(cells@[1]));
        assert(cs[2] == cell_view(cells@[2]));
        assert(cs[3] == cell_view(cells@[3]));
        assert(cs[4] == cell_view(cells@[4]));
        assert(cs[5] == cell_view(cells@[5]));
        assert(cs[6] == cell_view(cells@[6]));
        assert(cs[7] == cell_view(cells@[7]));
        assert(cs[8] == cell_view(cells@[8]));
        assert(cs[9] == cell_view(cells@[9]));
        assert(cs[10] == cell_view(cells@[10]));
        assert(cs[11] == cell_view(cells@[11]));
        assert(cs[12] == cell_view(cells@[12]));
        assert(cs[13] == cell_view(cells@[13]));
        assert(cs[14] == cell_view(cells@[14]));
        assert(cs[15] == cell_view(cells@[15]));
        assert(cs[16] == cell_view(cells@[16]));
        assert(cs[17] == cell_view(cells@[17]));
        assert(cs[18] == cell_view(cells@[18]));
        assert(cs[19] == cell_view(cells@[19]));
        assert(cs[20] == cell_view(cells@[20]));
        assert(cs[21] == cell_view(cells@[21]));
        assert(cs[22] == cell_view(cells@[22]));
        assert(cs[23] == cell_view(cells@[23]));
        assert(cs[24] == cell_view(cells@[24]));
        assert(cs[25] == cell_view(cells@[25]));
        assert(cs[26] == cell_view(cells@[26]));
        assert(cs[27] == cell_view(cells@[27]));
        assert(cs[28] == cell_view(cells@[28]));
        assert(cs[29] == cell_view(cells@[29]));
        assert(cs[30] == cell_view(cells@[30]));
        assert(cs[31] == cell_view(cells@[31]));
        assert(cs[32] == cell_view(cells@[32]));
        assert(cs[33] == cell_view(cells@[33]));
        assert(cs[34] == cell_view(cells@[34]));
        assert(cs[35] == cell_view(cells@[35]));
        assert(cs[36] == cell_view(cells@[36]));
        assert(cs[37] == cell_view(cells@[37]));
        assert(cs[38] == cell_view(cells@[38]));
        assert(cs[39] == cell_view(cells@[39]));
        assert(cs[40] == cell_view(cells@[40]));
        assert(cs[41] == cell_view(cells@[41]));
        assert(cs[42] == cell_view(cells@[42]));
        assert(cs[43] == cell_view(cells@[43]));
        assert(cs[44] == cell_view(cells@[44]));
        assert(cs[45] == cell_view(cells@[45]));
        assert(cs[46] == cell_view(cells@[46]));
        assert(cs[47] == cell_view(cells@[47]));
        assert(cs[48] == cell_view(cells@[48]));
        assert(cs[49] == cell_view(cells@[49]));
        assert(cs[50] == cell_view(cells@[50]));
        assert(cs[51] == cell_view(cells@[51]));
        assert(cs[52] == cell_view(cells@[52]));
        assert(cs[53] == cell_view(cells@[53]));
        assert(cs[54] == cell_view(cells@[54]));
        assert(cs[55] == cell_view(cells@[55]));
        assert(cs[56] == cell_view(cells@[56]));
        assert(cs[57] == cell_view(cells@[57]));
        assert(cs[58] == cell_view(cells@[58]));
    }
    DecompItemData {
        name,
        price,
        hold_effect,
        hold_effect_param,
        pluck_effect,
        fling_effect,
        fling_power,
        natural_gift_power,
        natural_gift_type,
        prevent_toss,
        selectable,
        field_pocket,
        battle_pocket,
        field_use_func,
        battle_use_func,
        party_use,
        heal_sleep,
        heal_poison,
        heal_burn,
        heal_freeze,
        heal_paralysis,
        heal_confusion,
        heal_attract,
        guard_spec,
        revive,
        revive_all,
        level_up,
        evolve,
        atk_stages,
        def_stages,
        spatk_stages,
        spdef_stages,
        speed_stages,
        acc_stages,
        crit_stages,
        pp_up,
        pp_max,
        pp_restore,
        pp_restore_all,
        hp_restore,
        give_hp_evs,
        give_atk_evs,
        give_def_evs,
        give_speed_evs,
        give_spatk_evs,
        give_spdef_evs,
        give_friendship_low,
        give_friendship_med,
        give_friendship_high,
        hp_evs,
        atk_evs,
        def_evs,
        speed_evs,
        spatk_evs,
        spdef_evs,
        hp_restored,
        pp_restored,
        friendship_low,
        friendship_med,
        friendship_high,
    }
}

proof fn lemma_row_error_stays(fields: Seq<(Seq<char>, Seq<char>)>, row: nat, k: nat, n: nat)
    requires
        k <= n,
        row_cells(fields, row, k) is Err,
    ensures
        row_cells(fields, row, n) == row_cells(fields, row, k),
    decreases n - k,
{
    if k < n {
        lemma_row_error_stays(fields, row, k, (n - 1) as nat);
    }
}


/// Read one CSV row of an item table: `Ok(None)` for an empty row or one
/// without an item name.
pub fn parse_csv_row(header: &Vec<String>, values: &Vec<String>, row_number: usize) -> (r: Result<Option<DecompItemData>, UxieError>)
    ensures
        match r {
            Ok(None) => row_outcome(strings_view(header@), strings_view(values@), row_number as nat)
                == Ok::<Option<(Seq<char>, Seq<Cell>)>, Seq<char>>(None),
            Ok(Some(d)) => row_outcome(strings_view(header@), strings_view(values@), row_number as nat)
                matches Ok(Some((n, cs))) && item_holds(d, n, cs),
            Err(e) => invalid_data_text(e) matches Some(m)
                && row_outcome(strings_view(header@), strings_view(values@), row_number as nat)
                == Err::<Option<(Seq<char>, Seq<Cell>)>, Seq<char>>(m),
        },
{
    let ghost hv = strings_view(header@);
    let ghost vv = strings_view(values@);
    if values.len() == 0 {
        return Ok(None);
    }
    let n = if header.len() <= values.len() { header.len() } else { values.len() };
    let mut fields: Vec<(String, String)> = Vec::new();
    let mut i: usize = 0;
    while i < n
        invariant
            i <= n,
            n <= header@.len(),
            n <= values@.len(),
            hv == strings_view(header@),
            vv == strings_view(values@),
            field_view(fields@) == row_fields(hv, vv).take(i as int),
            row_fields(hv, vv).len() == n,
        decreases n - i,
    {
        let h = trimmed(header[i].as_str());
        let v = trimmed(values[i].as_str());
        let ghost before = field_view(fields@);
        assert(hv[i as int] == header@[i as int]@);
        assert(vv[i as int] == values@[i as int]@);
        let ghost hg = h@;
        let ghost vg = v@;
        fields.push((h, v));
        assert(field_view(fields@) =~= before.push((hg, vg)));
        assert(row_fields(hv, vv)[i as int] == (trim(hv[i as int]), trim(vv[i as int])));
        assert(field_view(fields@) =~= row_fields(hv, vv).take(i + 1));
        i = i + 1;
    }
    assert(row_fields(hv, vv).take(n as int) =~= row_fields(hv, vv));
    let name = match lookup_field(&fields, "item") {
        Some(s) => s,
        None => String::new(),
    };
    if name.as_str().unicode_len() == 0 {
        return Ok(None);
    }
    match item_from_fields(&fields, name, row_number) {
        Ok(d) => Ok(Some(d)),
        Err(m) => Err(UxieError::invalid_data(m)),
    }
}

/// The rows of an item table from line `k` on: each row that is not blank
/// is read with its number (the header is row 1); the first refused row
/// stops the reading, its error prefixed with the file it came from.
pub open spec fn rows_outcome(
    ls: Seq<Seq<char>>,
    header: Seq<Seq<char>>,
    path: Seq<char>,
    k: nat,
) -> Result<Seq<(Seq<char>, Seq<Cell>)>, Seq<char>>
    decreases ls.len() - k,
{
    if k >= ls.len() {
        Ok(Seq::empty())
    } else if trim(ls[k as int]).len() == 0 {
        rows_outcome(ls, header, path, k + 1)
    } else {
        match row_outcome(header, split_on(ls[k as int], ',').map_values(|p: Seq<char>| trim(p)), k + 1) {
            Err(e) => Err("Failed to parse "@ + path + ": "@ + e),
            Ok(None) => rows_outcome(ls, header, path, k + 1),
            Ok(Some(item)) => match rows_outcome(ls, header, path, k + 1) {
                Ok(rest) => Ok(seq![item] + rest),
                Err(e) => Err(e),
            },
        }
    }
}

/// What an item table reads as: its first line names the columns, the
/// others are rows.
pub open spec fn csv_outcome(content: Seq<char>, path: Seq<char>) -> Result<Seq<(Seq<char>, Seq<Cell>)>, Seq<char>> {
    let ls = lines(content);
    if ls.len() == 0 {
        Err("Empty CSV file"@)
    } else {
        rows_outcome(ls, split_on(ls[0], ',').map_values(|p: Seq<char>| trim(p)), path, 1)
    }
}

pub open spec fn prepend_rows(
    acc: Seq<(Seq<char>, Seq<Cell>)>,
    r: Result<Seq<(Seq<char>, Seq<Cell>)>, Seq<char>>,
) -> Result<Seq<(Seq<char>, Seq<Cell>)>, Seq<char>> {
    match r {
        Ok(rest) => Ok(acc + rest),
        Err(e) => Err(e),
    }
}

/// Read an item table from its text; `path` names the file in errors. The
/// items come in row order (a later row may repeat an earlier name).
pub fn parse_item_csv(content: &str, path: &str) -> (r: Result<Vec<DecompItemData>, UxieError>)
    ensures
        match r {
            Ok(items) => csv_outcome(content@, path@) matches Ok(rows) && rows.len() == items@.len()
                && forall|i: int| 0 <= i < rows.len() ==> item_holds(#[trigger] items@[i], rows[i].0, rows[i].1),
            Err(e) => invalid_data_text(e) matches Some(m)
                && csv_outcome(content@, path@) == Err::<Seq<(Seq<char>, Seq<Cell>)>, Seq<char>>(m),
        },
{
    let v = chars_of(content);
    let ghost ls = lines(v@);
    assert(v@.skip(0) =~= v@);
    if v.len() == 0 {
        return Err(UxieError::invalid_data(String::from_str("Empty CSV file")));
    }
    let (h0, h1, mut pos) = next_line(&v, 0);
    let header = split_trimmed(&v, h0, h1, ',');
    let ghost hv = strings_view(header@);
    assert(hv =~= split_on(ls[0], ',').map_values(|p: Seq<char>| trim(p)));
    let ghost whole = rows_outcome(ls, hv, path@, 1);
    let ghost mut acc: Seq<(Seq<char>, Seq<Cell>)> = Seq::empty();
    let ghost mut k: nat = 1;
    let mut row_number: usize = 1;
    let mut items: Vec<DecompItemData> = Vec::new();
    assert(ls.skip(1) =~= lines(v@.skip(pos as int))) by {
        assert(lines(v@.skip(0)) == seq![v@.subrange(h0 as int, h1 as int)] + lines(v@.skip(pos as int)));
    }
    assert(whole == prepend_rows(acc, rows_outcome(ls, hv, path@, k))) by {
        match rows_outcome(ls, hv, path@, 1) {
            Ok(rest) => { assert(acc + rest =~= rest); },
            Err(_) => {},
        }
    }
    while pos < v.len()
        invariant
            pos <= v@.len(),
            1 <= k <= pos,
            row_number == k,
            v@ == content@,
            ls == lines(v@),
            ls.len() > 0,
            hv == split_on(ls[0], ',').map_values(|p: Seq<char>| trim(p)),
            lines(v@.skip(pos as int)) == ls.skip(k as int),
            k <= ls.len(),
            hv == strings_view(header@),
            whole == rows_outcome(ls, hv, path@, 1),
            whole == prepend_rows(acc, rows_outcome(ls, hv, path@, k)),
            acc.len() == items@.len(),
            forall|i: int| 0 <= i < acc.len() ==> item_holds(#[trigger] items@[i], acc[i].0, acc[i].1),
        decreases v@.len() - pos,
    {
        let (l0, l1, next) = next_line(&v, pos);
        let ghost line = v@.subrange(l0 as int, l1 as int);
        assert(k < ls.len() && ls[k as int] == line) by {
            assert(ls.skip(k as int).len() > 0);
            assert(ls.skip(k as int)[0] == ls[k as int]);
        }
        assert(ls.skip(k + 1 as int) =~= lines(v@.skip(next as int))) by {
            assert(ls.skip(k as int).drop_first() =~= ls.skip(k + 1 as int));
        }
        let this_row = row_number + 1;
        let (ta, tb) = trim_bounds(&v, l0, l1);
        if ta < tb {
            let values = split_trimmed(&v, l0, l1, ',');
            assert(strings_view(values@) =~= split_on(line, ',').map_values(|p: Seq<char>| trim(p)));
            match parse_csv_row(&header, &values, this_row) {
                Ok(Some(d)) => {
                    let ghost item = row_outcome(hv, strings_view(values@), this_row as nat)->Ok_0->Some_0;
                    proof {
                        match rows_outcome(ls, hv, path@, k + 1) {
                            Ok(rest) => {
                                assert(acc + (seq![item] + rest) =~= acc.push(item) + rest);
                            },
                            Err(_) => {},
                        }
                        acc = acc.push(item);
                    }
                    items.push(d);
                },
                Ok(None) => {},
                Err(e) => {
                    let inner = match e {
                        UxieError::Io { message, .. } => message,
                        _ => String::new(),
                    };
                    let mut m = String::from_str("Failed to parse ");
                    push_str(&mut m, path);
                    push_str(&mut m, ": ");
                    push_str(&mut m, inner.as_str());
                    return Err(UxieError::invalid_data(m));
                },
            }
        } else {
            assert(trim(line).len() == 0);
        }
        pos = next;
        row_number = this_row;
        proof {
            k = k + 1;
        }
    }
    assert(ls.skip(k as int).len() == 0) by {
        assert(v@.skip(pos as int) =~= Seq::<char>::empty());
    }
    assert(whole == Ok::<Seq<(Seq<char>, Seq<Cell>)>, Seq<char>>(acc)) by {
        assert(acc + Seq::<(Seq<char>, Seq<Cell>)>::empty() =~= acc);
    }
    Ok(items)
}

} // verus!