//! Move data as the decompilation projects write it (`data.json` per move),
//! converted to the binary [`MoveData`] record.
use vstd::prelude::*;
use crate::error::{UxieError, ErrorKind};
use crate::move_data::{MoveData, MoveFlags, MoveSplit, MAKES_CONTACT, AFFECTED_BY_PROTECT,
    AFFECTED_BY_MAGIC_COAT, AFFECTED_BY_SNATCH, USABLE_BY_MIRROR_MOVE, AFFECTED_BY_KINGS_ROCK};
use crate::text::{push_str, str_eq};

verus! {

/// The effect of a move.
#[derive(Debug, Clone)]
pub struct MoveEffect {
    pub effect_type: String,
    pub chance: u8,
}

/// The contest effect and type of a move.
#[derive(Debug, Clone)]
pub struct ContestData {
    pub effect: String,
    pub contest_type: String,
}

/// One move in the decompilation JSON format.
#[derive(Debug, Clone)]
pub struct DecompMoveData {
    pub name: String,
    pub move_class: String,
    pub move_type: String,
    pub power: u8,
    pub accuracy: u8,
    pub pp: u8,
    pub effect: MoveEffect,
    pub range: String,
    pub priority: i8,
    pub flags: Vec<String>,
    pub contest: Option<ContestData>,
}

/// The message of the error for a symbolic constant that did not resolve.
pub open spec fn unresolved_msg(constant: Seq<char>, field: Seq<char>, domain: Seq<char>) -> Seq<char> {
    "Failed to resolve required constant '"@ + constant + "' for "@ + domain + " field '"@ + field
        + "'"@
}

/// The error for a symbolic constant that did not resolve.
pub fn unresolved_constant(constant: &str, field: &str, domain: &str) -> (e: UxieError)
    ensures
        e matches UxieError::Io { kind, message } && kind == ErrorKind::InvalidData && message@
            == unresolved_msg(constant@, field@, domain@),
{
    let mut m = String::new();
    push_str(&mut m, "Failed to resolve required constant '");
    push_str(&mut m, constant);
    push_str(&mut m, "' for ");
    push_str(&mut m, domain);
    push_str(&mut m, " field '");
    push_str(&mut m, field);
    push_str(&mut m, "'");
    assert(m@ =~= unresolved_msg(constant@, field@, domain@));
    UxieError::invalid_data(m)
}

/// The split a move class names; any other class is a status move.
pub open spec fn split_of_class(c: Seq<char>) -> MoveSplit {
    if c == "CLASS_PHYSICAL"@ {
        MoveSplit::Physical
    } else if c == "CLASS_SPECIAL"@ {
        MoveSplit::Special
    } else {
        MoveSplit::Status
    }
}

/// The flag bit a flag name sets; other names set none.
pub open spec fn flag_bit(name: Seq<char>) -> u8 {
    if name == "MOVE_FLAG_MAKES_CONTACT"@ {
        MAKES_CONTACT
    } else if name == "MOVE_FLAG_CAN_PROTECT"@ {
        AFFECTED_BY_PROTECT
    } else if name == "MOVE_FLAG_CAN_MAGIC_COAT"@ {
        AFFECTED_BY_MAGIC_COAT
    } else if name == "MOVE_FLAG_CAN_SNATCH"@ {
        AFFECTED_BY_SNATCH
    } else if name == "MOVE_FLAG_CAN_MIRROR_MOVE"@ {
        USABLE_BY_MIRROR_MOVE
    } else if name == "MOVE_FLAG_KINGS_ROCK"@ {
        AFFECTED_BY_KINGS_ROCK
    } else {
        0
    }
}

/// The union of the bits the flag names set.
pub open spec fn flags_of(names: Seq<String>) -> u8
    decreases names.len(),
{
    if names.len() == 0 {
        0
    } else {
        flags_of(names.drop_last()) | flag_bit(names.last()@)
    }
}

/// The move a decomp record converts to, given what each of its symbolic
/// constants resolved to (`None`: it did not resolve). The effect, type and
/// range are required, and so are the contest effect and type when the
/// record has contest data; the first one missing, in that order, is the
/// error. Resolved values are cut to the width of their field.
pub open spec fn move_from_resolved(
    d: DecompMoveData,
    effect: Option<i64>,
    move_type: Option<i64>,
    range: Option<i64>,
    contest_effect: Option<i64>,
    contest_type: Option<i64>,
) -> Result<MoveData, Seq<char>> {
    if effect is None {
        Err(unresolved_msg(d.effect.effect_type@, "effect.type"@, "move"@))
    } else if move_type is None {
        Err(unresolved_msg(d.move_type@, "type"@, "move"@))
    } else if range is None {
        Err(unresolved_msg(d.range@, "range"@, "move"@))
    } else if d.contest is Some && contest_effect is None {
        Err(unresolved_msg(d.contest->0.effect@, "contest.effect"@, "move"@))
    } else if d.contest is Some && contest_type is None {
        Err(unresolved_msg(d.contest->0.contest_type@, "contest.type"@, "move"@))
    } else {
        Ok(MoveData {
            battle_effect: effect->0 as u16,
            split: split_of_class(d.move_class@),
            power: d.power,
            move_type: move_type->0 as u8,
            accuracy: d.accuracy,
            pp: d.pp,
            side_effect_chance: d.effect.chance,
            target: range->0 as u16,
            priority: d.priority,
            flags: MoveFlags { bits: flags_of(d.flags@) },
            contest_appeal: if d.contest is Some { contest_effect->0 as u8 } else { 0 },
            contest_condition: if d.contest is Some { contest_type->0 as u8 } else { 0 },
        })
    }
}

/// The view of a conversion result: the move, or the error's message.
pub open spec fn result_view(r: Result<MoveData, UxieError>) -> Result<MoveData, Seq<char>> {
    match r {
        Ok(m) => Ok(m),
        Err(UxieError::Io { message, .. }) => Err(message@),
        Err(_) => Err(Seq::empty()),
    }
}

fn flag_bit_of(name: &String) -> (b: u8)
    ensures
        b == flag_bit(name@),
{
    let s = name.as_str();
    if str_eq(s, "MOVE_FLAG_MAKES_CONTACT") {
        MAKES_CONTACT
    } else if str_eq(s, "MOVE_FLAG_CAN_PROTECT") {
        AFFECTED_BY_PROTECT
    } else if str_eq(s, "MOVE_FLAG_CAN_MAGIC_COAT") {
        AFFECTED_BY_MAGIC_COAT
    } else if str_eq(s, "MOVE_FLAG_CAN_SNATCH") {
        AFFECTED_BY_SNATCH
    } else if str_eq(s, "MOVE_FLAG_CAN_MIRROR_MOVE") {
        USABLE_BY_MIRROR_MOVE
    } else if str_eq(s, "MOVE_FLAG_KINGS_ROCK") {
        AFFECTED_BY_KINGS_ROCK
    } else {
        0
    }
}

impl DecompMoveData {
    /// Convert this record, given what each symbolic constant resolved to.
    pub fn to_move_data_resolved(
        &self,
        effect: Option<i64>,
        move_type: Option<i64>,
        range: Option<i64>,
        contest_effect: Option<i64>,
        contest_type: Option<i64>,
    ) -> (r: Result<MoveData, UxieError>)
        ensures
            result_view(r) == move_from_resolved(*self, effect, move_type, range, contest_effect, contest_type),
            r is Err ==> r->Err_0.spec_kind() == ErrorKind::InvalidData,
    {
        let battle_effect = match effect {
            Some(v) => v as u16,
            None => {
                return Err(unresolved_constant(self.effect.effect_type.as_str(), "effect.type", "move"));
            },
        };
        let mt = match move_type {
            Some(v) => v as u8,
            None => {
                return Err(unresolved_constant(self.move_type.as_str(), "type", "move"));
            },
        };
        let target = match range {
            Some(v) => v as u16,
            None => {
                return Err(unresolved_constant(self.range.as_str(), "range", "move"));
            },
        };
        let (contest_appeal, contest_condition) = match &self.contest {
            Some(c) => {
                let a = match contest_effect {
                    Some(v) => v as u8,
                    None => {
                        return Err(unresolved_constant(c.effect.as_str(), "contest.effect", "move"));
                    },
                };
                let t = match contest_type {
                    Some(v) => v as u8,
                    None => {
                        return Err(unresolved_constant(c.contest_type.as_str(), "contest.type", "move"));
                    },
                };
                (a, t)
            },
            None => (0u8, 0u8),
        };
        let class = self.move_class.as_str();
        let split = if str_eq(class, "CLASS_PHYSICAL") {
            MoveSplit::Physical
        } else if str_eq(class, "CLASS_SPECIAL") {
            MoveSplit::Special
        } else {
            MoveSplit::Status
        };
        let mut bits: u8 = 0;
        let mut i: usize = 0;
        while i < self.flags.len()
            invariant
                i <= self.flags@.len(),
                bits == flags_of(self.flags@.take(i as int)),
            decreases self.flags@.len() - i,
        {
            bits = bits | flag_bit_of(&self.flags[i]);
            assert(self.flags@.take(i + 1).drop_last() =~= self.flags@.take(i as int));
            i = i + 1;
        }
        assert(self.flags@.take(i as int) =~= self.flags@);
        Ok(MoveData {
            battle_effect,
            split,
            power: self.power,
            move_type: mt,
            accuracy: self.accuracy,
            pp: self.pp,
            side_effect_chance: self.effect.chance,
            target,
            priority: self.priority,
            flags: MoveFlags::from_bits_retain(bits),
            contest_appeal,
            contest_condition,
        })
    }

    /// Convert this record, resolving its symbolic constants with
    /// `resolve_constant`. The constants are looked up in the order effect,
    /// type, range, then the contest effect and type; lookup stops at the
    /// first that does not resolve, which is the error.
    pub fn to_move_data<F: Fn(&str) -> Option<i64>>(&self, resolve_constant: F) -> (r: Result<MoveData, UxieError>)
        requires
            forall|s: &str| call_requires(resolve_constant, (s,)),
        ensures
            exists|e: Option<i64>, t: Option<i64>, g: Option<i64>, ce: Option<i64>, ct: Option<i64>|
                result_view(r) == move_from_resolved(*self, e, t, g, ce, ct) && resolved_by(
                    resolve_constant,
                    *self,
                    e,
                    t,
                    g,
                    ce,
                    ct,
                ),
            r is Err ==> r->Err_0.spec_kind() == ErrorKind::InvalidData,
    {
        let e = resolve_constant(self.effect.effect_type.as_str());
        if e.is_none() {
            let r = self.to_move_data_resolved(e, None, None, None, None);
            assert(resolved_by(resolve_constant, *self, e, None, None, None, None));
            return r;
        }
        let t = resolve_constant(self.move_type.as_str());
        if t.is_none() {
            let r = self.to_move_data_resolved(e, t, None, None, None);
            assert(resolved_by(resolve_constant, *self, e, t, None, None, None));
            return r;
        }
        let g = resolve_constant(self.range.as_str());
        if g.is_none() {
            let r = self.to_move_data_resolved(e, t, g, None, None);
            assert(resolved_by(resolve_constant, *self, e, t, g, None, None));
            return r;
        }
        match &self.contest {
            Some(c) => {
                let ce = resolve_constant(c.effect.as_str());
                if ce.is_none() {
                    let r = self.to_move_data_resolved(e, t, g, ce, None);
                    assert(resolved_by(resolve_constant, *self, e, t, g, ce, None));
                    return r;
                }
                let ct = resolve_constant(c.contest_type.as_str());
                let r = self.to_move_data_resolved(e, t, g, ce, ct);
                assert(resolved_by(resolve_constant, *self, e, t, g, ce, ct));
                r
            },
            None => {
                let r = self.to_move_data_resolved(e, t, g, None, None);
                assert(resolved_by(resolve_constant, *self, e, t, g, None, None));
                r
            },
        }
    }
}

/// `resolve` gave these results for the constants that `to_move_data` looks
/// up, each looked up only when every earlier one resolved.
pub open spec fn resolved_by<F: Fn(&str) -> Option<i64>>(
    resolve: F,
    d: DecompMoveData,
    e: Option<i64>,
    t: Option<i64>,
    g: Option<i64>,
    ce: Option<i64>,
    ct: Option<i64>,
) -> bool {
    &&& exists|s: &str| s@ == d.effect.effect_type@ && call_ensures(resolve, (s,), e)
    &&& e is Some ==> exists|s: &str| s@ == d.move_type@ && call_ensures(resolve, (s,), t)
    &&& (e is Some && t is Some) ==> exists|s: &str| s@ == d.range@ && call_ensures(resolve, (s,), g)
    &&& (e is Some && t is Some && g is Some && d.contest is Some) ==> exists|s: &str| s@
        == d.contest->0.effect@ && call_ensures(resolve, (s,), ce)
    &&& (e is Some && t is Some && g is Some && d.contest is Some && ce is Some) ==> exists|s: &str| s@
        == d.contest->0.contest_type@ && call_ensures(resolve, (s,), ct)
}


/// Law: a converted move takes its power, accuracy, PP, side-effect chance
/// and priority from the decomp fields of those names, its battle effect
/// from what `effect.type` resolved to, its type from `type`, its target
/// from `range`, its contest appeal and condition from `contest.effect` and
/// `contest.type` (0 without contest data); `CLASS_PHYSICAL` and
/// `CLASS_SPECIAL` are the physical and special splits, every other class
/// status.
pub proof fn move_conversion_fields(
    d: DecompMoveData,
    effect: Option<i64>,
    move_type: Option<i64>,
    range: Option<i64>,
    contest_effect: Option<i64>,
    contest_type: Option<i64>,
)
    ensures
        move_from_resolved(d, effect, move_type, range, contest_effect, contest_type) is Ok ==> {
            let m = move_from_resolved(d, effect, move_type, range, contest_effect, contest_type)->Ok_0;
            &&& effect is Some && move_type is Some && range is Some
            &&& m.power == d.power
            &&& m.accuracy == d.accuracy
            &&& m.pp == d.pp
            &&& m.side_effect_chance == d.effect.chance
            &&& m.priority == d.priority
            &&& m.battle_effect == effect->0 as u16
            &&& m.move_type == move_type->0 as u8
            &&& m.target == range->0 as u16
            &&& (d.move_class@ == "CLASS_PHYSICAL"@ ==> m.split == MoveSplit::Physical)
            &&& (d.move_class@ == "CLASS_SPECIAL"@ ==> m.split == MoveSplit::Special)
            &&& (d.move_class@ != "CLASS_PHYSICAL"@ && d.move_class@ != "CLASS_SPECIAL"@ ==> m.split
                == MoveSplit::Status)
            &&& (d.contest is Some ==> contest_effect is Some && contest_type is Some
                && m.contest_appeal == contest_effect->0 as u8 && m.contest_condition == contest_type->0 as u8)
            &&& (d.contest is None ==> m.contest_appeal == 0 && m.contest_condition == 0)
        },
{
    reveal_strlit("CLASS_PHYSICAL");
    reveal_strlit("CLASS_SPECIAL");
    assert("CLASS_PHYSICAL"@[6] != "CLASS_SPECIAL"@[6]);
}

} // verus!
