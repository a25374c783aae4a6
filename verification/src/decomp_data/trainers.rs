//! Trainer data as the decompilation projects write it
//! (`res/trainers/data/{trainer}.json`), converted to [`TrainerData`].
use vstd::prelude::*;
use crate::decomp_data::moves::{unresolved_constant, unresolved_msg};
use crate::decomp_data::pokemon::looked_up;
use crate::error::{UxieError, invalid_data_text};
use crate::text::{dec, push_dec, push_str, str_eq};
use crate::trainer_data::{AiFlags, PartyPokemon, TrainerData, TrainerFlags, TrainerProperties};

verus! {

/// A trainer as the decomp's JSON gives it.
#[derive(Debug, Clone)]
pub struct DecompTrainerData {
    pub name: String,
    pub trainer_class: String,
    pub items: Vec<String>,
    pub ai_flags: Vec<String>,
    pub double_battle: bool,
    pub party: Vec<DecompPartyMember>,
    pub messages: Vec<TrainerMessage>,
}

/// One party entry as the decomp's JSON gives it.
#[derive(Debug, Clone)]
pub struct DecompPartyMember {
    pub species: String,
    pub form: u8,
    pub level: u16,
    pub item: Option<String>,
    pub moves: Option<Vec<String>>,
    pub difficulty: u16,
    pub gender_override: Option<String>,
    pub ability_override: Option<String>,
    pub capsule: u16,
}

/// A line a trainer says, by kind, with its English text.
#[derive(Debug, Clone)]
pub struct TrainerMessage {
    pub msg_type: String,
    pub en_us: Option<Vec<String>>,
}

/// How a symbolic name of a trainer record is looked up.
#[derive(Debug, Clone, Copy, PartialEq, Eq, Structural)]
pub enum LookupKind {
    /// A constant that must resolve.
    Required,
    /// A gender override: the table's value, else one of the three
    /// `TRPOKE_GENDER_OVERRIDE_*` names.
    GenderOverride,
    /// An ability override: the table's value, else one of the three
    /// `TRPOKE_ABILITY_OVERRIDE_*` names.
    AbilityOverride,
}

/// A name to look up, and the field it fills.
pub ghost struct Lookup {
    pub name: Seq<char>,
    pub field: Seq<char>,
    pub kind: LookupKind,
}

pub open spec fn required(name: Seq<char>, field: Seq<char>) -> Lookup {
    Lookup { name, field, kind: LookupKind::Required }
}

/// The value an override's own name stands for.
pub open spec fn known_override(kind: LookupKind, name: Seq<char>) -> Option<i64> {
    match kind {
        LookupKind::Required => None,
        LookupKind::GenderOverride => if name == "TRPOKE_GENDER_OVERRIDE_OFF"@ {
            Some(0)
        } else if name == "TRPOKE_GENDER_OVERRIDE_MALE"@ {
            Some(1)
        } else if name == "TRPOKE_GENDER_OVERRIDE_FEMALE"@ {
            Some(2)
        } else {
            None
        },
        LookupKind::AbilityOverride => if name == "TRPOKE_ABILITY_OVERRIDE_OFF"@ {
            Some(0)
        } else if name == "TRPOKE_ABILITY_OVERRIDE_FIRST"@ {
            Some(1)
        } else if name == "TRPOKE_ABILITY_OVERRIDE_SECOND"@ {
            Some(2)
        } else {
            None
        },
    }
}

/// What a lookup yields given what its name resolved to: a required
/// constant its value, an override its value as a byte or, unresolved, the
/// value its own name stands for.
pub open spec fn lookup_value(l: Lookup, o: Option<i64>) -> Option<i64> {
    match o {
        Some(v) => Some(if l.kind == LookupKind::Required { v } else { (v as u8) as i64 }),
        None => known_override(l.kind, l.name),
    }
}

/// The message of the error for an override that did not resolve.
pub open spec fn override_msg(name: Seq<char>, field: Seq<char>) -> Seq<char> {
    "Failed to resolve override constant '"@ + name + "' for trainer field '"@ + field + "'"@
}

/// The error for a lookup that yielded nothing.
pub open spec fn lookup_error(l: Lookup) -> Seq<char> {
    if l.kind == LookupKind::Required {
        unresolved_msg(l.name, l.field, "trainer"@)
    } else {
        override_msg(l.name, l.field)
    }
}

/// `resolve` gave `got` for the lookups `ls`, in order, stopping after the
/// first that yielded nothing.
pub open spec fn lookups_by<F: Fn(&str) -> Option<i64>>(resolve: F, ls: Seq<Lookup>, got: Seq<Option<i64>>) -> bool {
    &&& got.len() <= ls.len()
    &&& forall|i: int| 0 <= i < got.len() ==> looked_up(resolve, ls[i].name, #[trigger] got[i])
    &&& forall|i: int| 0 <= i < got.len() - 1 ==> lookup_value(ls[i], #[trigger] got[i]) is Some
    &&& got.len() < ls.len() ==> got.len() > 0 && lookup_value(ls[got.len() - 1], got.last()) is None
}

/// Every lookup yielded a value.
pub open spec fn all_found(ls: Seq<Lookup>, got: Seq<Option<i64>>) -> bool {
    &&& got.len() == ls.len()
    &&& forall|i: int| 0 <= i < got.len() ==> lookup_value(ls[i], #[trigger] got[i]) is Some
}

/// The values the lookups yielded.
pub open spec fn found(ls: Seq<Lookup>, got: Seq<Option<i64>>) -> Seq<i64> {
    Seq::new(got.len(), |i: int| lookup_value(ls[i], got[i])->0)
}

/// `field[k]`.
pub open spec fn indexed(field: Seq<char>, k: nat) -> Seq<char> {
    field + "["@ + dec(k) + "]"@
}

/// At most the first four.
pub open spec fn min4(n: nat) -> nat {
    if n < 4 {
        n
    } else {
        4
    }
}

/// The trainer class, then the first four items.
pub open spec fn head_lookups(d: DecompTrainerData) -> Seq<Lookup> {
    seq![required(d.trainer_class@, "trainer_class"@)] + Seq::new(
        min4(d.items@.len()),
        |k: int| required(d.items@[k]@, indexed("items"@, k as nat)),
    )
}

pub open spec fn item_count(m: DecompPartyMember) -> nat {
    if m.item is Some {
        1
    } else {
        0
    }
}

pub open spec fn move_count(m: DecompPartyMember) -> nat {
    match m.moves {
        Some(ms) => min4(ms@.len()),
        None => 0,
    }
}

/// A party entry's species, held item, first four moves, then its gender
/// and ability overrides.
pub open spec fn member_lookups(m: DecompPartyMember) -> Seq<Lookup> {
    seq![required(m.species@, "party.species"@)] + match m.item {
        Some(i) => seq![required(i@, "party.item"@)],
        None => Seq::empty(),
    } + match m.moves {
        Some(ms) => Seq::new(min4(ms@.len()), |k: int| required(ms@[k]@, indexed("party.moves"@, k as nat))),
        None => Seq::empty(),
    } + match m.gender_override {
        Some(g) => seq![Lookup { name: g@, field: "genderOverride"@, kind: LookupKind::GenderOverride }],
        None => Seq::empty(),
    } + match m.ability_override {
        Some(a) => seq![Lookup { name: a@, field: "abilityOverride"@, kind: LookupKind::AbilityOverride }],
        None => Seq::empty(),
    }
}

/// The party entry built from a decomp entry and the values its lookups
/// yielded.
pub open spec fn member_fields(m: DecompPartyMember, vals: Seq<i64>, p: PartyPokemon) -> bool {
    let mi = 1 + item_count(m);
    let gi = mi + move_count(m);
    let ai = gi + if m.gender_override is Some { 1nat } else { 0nat };
    let g: int = if m.gender_override is Some { ((vals[gi as int] as u8) % 16) as int } else { 0 };
    let a: int = if m.ability_override is Some { ((vals[ai as int] as u8) % 16) as int } else { 0 };
    &&& p.species == vals[0] as u16
    &&& p.held_item == if m.item is Some { Some(vals[1] as u16) } else { None }
    &&& match m.moves {
        Some(_) => p.moves matches Some(arr) && forall|k: int|
            0 <= k < 4 ==> #[trigger] arr@[k] == if k < move_count(m) { vals[mi + k] as u16 } else { 0u16 },
        None => p.moves is None,
    }
    &&& p.gender_ability_override == g + 16 * a
    &&& p.difficulty == m.difficulty
    &&& p.level == m.level
    &&& p.form == m.form
    &&& p.ball_seal == if m.capsule > 0 { Some(m.capsule) } else { None }
}

/// A name to look up, as the conversion carries it.
struct LookupItem {
    name: String,
    field: String,
    kind: LookupKind,
}

spec fn item_lookup(x: LookupItem) -> Lookup {
    Lookup { name: x.name@, field: x.field@, kind: x.kind }
}

spec fn lookups_view(ls: Seq<LookupItem>) -> Seq<Lookup> {
    ls.map_values(|x: LookupItem| item_lookup(x))
}

fn indexed_field(field: &str, k: usize) -> (r: String)
    ensures
        r@ == indexed(field@, k as nat),
{
    let mut r = String::new();
    push_str(&mut r, field);
    push_str(&mut r, "[");
    push_dec(&mut r, k as u64);
    push_str(&mut r, "]");
    r
}

fn push_lookup(ls: &mut Vec<LookupItem>, name: &String, field: String, kind: LookupKind)
    ensures
        lookups_view(final(ls)@) == lookups_view(old(ls)@).push(Lookup { name: name@, field: field@, kind }),
{
    let ghost before = ls@;
    ls.push(LookupItem { name: name.clone(), field, kind });
    assert(lookups_view(ls@) =~= lookups_view(before).push(Lookup { name: name@, field: field@, kind }));
}

/// Push a required lookup for each of the first four `names`, each filling
/// `field[k]`.
fn push_indexed(ls: &mut Vec<LookupItem>, names: &Vec<String>, field: &str)
    ensures
        lookups_view(final(ls)@) == lookups_view(old(ls)@) + Seq::new(
            min4(names@.len()),
            |k: int| required(names@[k]@, indexed(field@, k as nat)),
        ),
{
    let ghost before = lookups_view(ls@);
    let n = if names.len() < 4 { names.len() } else { 4 };
    let mut k: usize = 0;
    while k < n
        invariant
            k <= n == min4(names@.len()),
            lookups_view(ls@) == before + Seq::new(k as nat, |j: int| required(names@[j]@, indexed(field@, j as nat))),
        decreases n - k,
    {
        let f = indexed_field(field, k);
        push_lookup(ls, &names[k], f, LookupKind::Required);
        assert(before + Seq::new((k + 1) as nat, |j: int| required(names@[j]@, indexed(field@, j as nat))) =~= (before
            + Seq::new(k as nat, |j: int| required(names@[j]@, indexed(field@, j as nat)))).push(
            required(names@[k as int]@, indexed(field@, k as nat)),
        ));
        k = k + 1;
    }
}

/// The value an override's own name stands for.
fn known_override_exec(kind: LookupKind, name: &str) -> (r: Option<i64>)
    ensures
        r == known_override(kind, name@),
{
    match kind {
        LookupKind::Required => None,
        LookupKind::GenderOverride => if str_eq(name, "TRPOKE_GENDER_OVERRIDE_OFF") {
            Some(0)
        } else if str_eq(name, "TRPOKE_GENDER_OVERRIDE_MALE") {
            Some(1)
        } else if str_eq(name, "TRPOKE_GENDER_OVERRIDE_FEMALE") {
            Some(2)
        } else {
            None
        },
        LookupKind::AbilityOverride => if str_eq(name, "TRPOKE_ABILITY_OVERRIDE_OFF") {
            Some(0)
        } else if str_eq(name, "TRPOKE_ABILITY_OVERRIDE_FIRST") {
            Some(1)
        } else if str_eq(name, "TRPOKE_ABILITY_OVERRIDE_SECOND") {
            Some(2)
        } else {
            None
        },
    }
}

/// The error for a lookup that yielded nothing.
fn lookup_failure(l: &LookupItem) -> (e: UxieError)
    ensures
        invalid_data_text(e) == Some(lookup_error(item_lookup(*l))),
{
    match l.kind {
        LookupKind::Required => unresolved_constant(l.name.as_str(), l.field.as_str(), "trainer"),
        _ => {
            let mut m = String::from_str("Failed to resolve override constant '");
            push_str(&mut m, l.name.as_str());
            push_str(&mut m, "' for trainer field '");
            push_str(&mut m, l.field.as_str());
            push_str(&mut m, "'");
            UxieError::invalid_data(m)
        },
    }
}

/// Look the names of `ls` up in order with `resolve`, stopping after the
/// first that yields nothing; the values yielded, and what `resolve` gave.
fn resolve_lookups<F: Fn(&str) -> Option<i64>>(resolve: &F, ls: &Vec<LookupItem>) -> (r: (Vec<i64>, Ghost<Seq<Option<i64>>>))
    requires
        forall|s: &str| call_requires(*resolve, (s,)),
    ensures
        lookups_by(*resolve, lookups_view(ls@), r.1@),
        all_found(lookups_view(ls@), r.1@) ==> r.0@ == found(lookups_view(ls@), r.1@),
        !all_found(lookups_view(ls@), r.1@) ==> r.1@.len() > 0 && r.0@.len() == r.1@.len() - 1
            && lookup_value(lookups_view(ls@)[r.1@.len() - 1], r.1@.last()) is None,
{
    let ghost lv = lookups_view(ls@);
    let mut vals: Vec<i64> = Vec::new();
    let ghost mut got: Seq<Option<i64>> = Seq::empty();
    let mut i: usize = 0;
    while i < ls.len()
        invariant
            i <= ls@.len(),
            lv == lookups_view(ls@),
            forall|s: &str| call_requires(*resolve, (s,)),
            got.len() == i,
            vals@.len() == i,
            forall|k: int| 0 <= k < i ==> looked_up(*resolve, lv[k].name, #[trigger] got[k]),
            forall|k: int| 0 <= k < i ==> lookup_value(lv[k], #[trigger] got[k]) == Some(vals@[k]),
        decreases ls@.len() - i,
    {
        let item = &ls[i];
        let name = item.name.as_str();
        let o = resolve(name);
        let ghost g0 = got;
        proof {
            got = got.push(o);
            assert(item_lookup(*item) == lv[i as int]);
            assert(call_ensures(*resolve, (name,), got[i as int]));
            assert(looked_up(*resolve, lv[i as int].name, got[i as int]));
            assert forall|k: int| 0 <= k <= i implies looked_up(*resolve, lv[k].name, #[trigger] got[k]) by {
                if k < i {
                    assert(got[k] == g0[k]);
                }
            }
        }
        let v = match o {
            Some(x) => match item.kind {
                LookupKind::Required => Some(x),
                _ => Some((x as u8) as i64),
            },
            None => known_override_exec(item.kind, item.name.as_str()),
        };
        assert(v == lookup_value(lv[i as int], o));
        match v {
            Some(x) => {
                vals.push(x);
            },
            None => {
                proof {
                    assert forall|k: int| 0 <= k < got.len() - 1 implies lookup_value(lv[k], #[trigger] got[k]) is Some by {
                        assert(got[k] == g0[k]);
                    }
                }
                return (vals, Ghost(got));
            },
        }
        proof {
            assert forall|k: int| 0 <= k <= i implies lookup_value(lv[k], #[trigger] got[k]) == Some(vals@[k]) by {
                if k < i {
                    assert(got[k] == g0[k]);
                }
            }
        }
        i = i + 1;
    }
    assert(vals@ =~= found(lv, got));
    (vals, Ghost(got))
}

/// The lookups of a party entry.
fn member_lookup_items(m: &DecompPartyMember) -> (r: Vec<LookupItem>)
    ensures
        lookups_view(r@) == member_lookups(*m),
{
    let mut ls: Vec<LookupItem> = Vec::new();
    assert(lookups_view(ls@) =~= Seq::empty());
    push_lookup(&mut ls, &m.species, String::from_str("party.species"), LookupKind::Required);
    let ghost a = lookups_view(ls@);
    if let Some(i) = &m.item {
        push_lookup(&mut ls, i, String::from_str("party.item"), LookupKind::Required);
    }
    let ghost b = lookups_view(ls@);
    if let Some(ms) = &m.moves {
        push_indexed(&mut ls, ms, "party.moves");
    }
    let ghost c = lookups_view(ls@);
    if let Some(g) = &m.gender_override {
        push_lookup(&mut ls, g, String::from_str("genderOverride"), LookupKind::GenderOverride);
    }
    let ghost d = lookups_view(ls@);
    if let Some(x) = &m.ability_override {
        push_lookup(&mut ls, x, String::from_str("abilityOverride"), LookupKind::AbilityOverride);
    }
    proof {
        let s1 = seq![required(m.species@, "party.species"@)];
        let s2: Seq<Lookup> = match &m.item {
            Some(i) => seq![required(i@, "party.item"@)],
            None => Seq::empty(),
        };
        let s3: Seq<Lookup> = match &m.moves {
            Some(ms) => Seq::new(min4(ms@.len()), |k: int| required(ms@[k]@, indexed("party.moves"@, k as nat))),
            None => Seq::empty(),
        };
        let s4: Seq<Lookup> = match &m.gender_override {
            Some(g) => seq![Lookup { name: g@, field: "genderOverride"@, kind: LookupKind::GenderOverride }],
            None => Seq::empty(),
        };
        let s5: Seq<Lookup> = match &m.ability_override {
            Some(x) => seq![Lookup { name: x@, field: "abilityOverride"@, kind: LookupKind::AbilityOverride }],
            None => Seq::empty(),
        };
        assert(a =~= s1);
        assert(b =~= s1 + s2);
        assert(c =~= s1 + s2 + s3);
        assert(d =~= s1 + s2 + s3 + s4);
        assert(lookups_view(ls@) =~= s1 + s2 + s3 + s4 + s5);
    }
    ls
}

/// The trainer class, then the first four items.
fn head_lookup_items(d: &DecompTrainerData) -> (r: Vec<LookupItem>)
    ensures
        lookups_view(r@) == head_lookups(*d),
{
    let mut ls: Vec<LookupItem> = Vec::new();
    assert(lookups_view(ls@) =~= Seq::empty());
    push_lookup(&mut ls, &d.trainer_class, String::from_str("trainer_class"), LookupKind::Required);
    push_indexed(&mut ls, &d.items, "items");
    assert(lookups_view(ls@) =~= head_lookups(*d));
    ls
}

/// The party entry of a decomp entry whose lookups yielded `vals`.
fn party_pokemon_of(m: &DecompPartyMember, vals: &Vec<i64>) -> (p: PartyPokemon)
    requires
        vals@.len() == member_lookups(*m).len(),
    ensures
        member_fields(*m, vals@, p),
{
    let species = vals[0] as u16;
    let mut k: usize = 1;
    let held_item = match &m.item {
        Some(_) => {
            k = 2;
            Some(vals[1] as u16)
        },
        None => None,
    };
    assert(k == 1 + item_count(*m));
    let moves = match &m.moves {
        Some(ms) => {
            let n: usize = if ms.len() < 4 { ms.len() } else { 4 };
            let a0: u16 = if 0 < n { vals[k] as u16 } else { 0 };
            let a1: u16 = if 1 < n { vals[k + 1] as u16 } else { 0 };
            let a2: u16 = if 2 < n { vals[k + 2] as u16 } else { 0 };
            let a3: u16 = if 3 < n { vals[k + 3] as u16 } else { 0 };
            k = k + n;
            let arr = [a0, a1, a2, a3];
            assert(arr@ =~= seq![a0, a1, a2, a3]);
            Some(arr)
        },
        None => None,
    };
    let gender: u8 = match &m.gender_override {
        Some(_) => {
            let b = vals[k] as u8;
            let v = b & 0x0F;
            assert(v == b % 16) by (bit_vector)
                requires
                    v == b & 0x0F,
            ;
            k = k + 1;
            v
        },
        None => 0,
    };
    let ability: u8 = match &m.ability_override {
        Some(_) => {
            let b = vals[k] as u8;
            let v = b & 0x0F;
            assert(v == b % 16) by (bit_vector)
                requires
                    v == b & 0x0F,
            ;
            v
        },
        None => 0,
    };
    let packed = gender | (ability << 4);
    assert(packed == gender + 16 * ability) by (bit_vector)
        requires
            gender < 16,
            ability < 16,
            packed == gender | (ability << 4),
    ;
    PartyPokemon {
        difficulty: m.difficulty,
        gender_ability_override: packed,
        level: m.level,
        species,
        form: m.form,
        held_item,
        moves,
        ball_seal: if m.capsule > 0 { Some(m.capsule) } else { None },
    }
}

/// Some name of `names` is `n`.
pub open spec fn listed(names: Seq<String>, n: Seq<char>) -> bool {
    exists|i: int| 0 <= i < names.len() && #[trigger] names[i]@ == n
}

/// The AI flags a list of flag names sets; other names set none.
pub open spec fn ai_flags_of(names: Seq<String>) -> AiFlags {
    AiFlags {
        basic: listed(names, "AI_FLAG_BASIC"@),
        eval_attack: listed(names, "AI_FLAG_EVAL_ATTACK"@),
        expert: listed(names, "AI_FLAG_EXPERT"@),
        setup_first_turn: listed(names, "AI_FLAG_SETUP_FIRST_TURN"@),
        risky: listed(names, "AI_FLAG_RISKY"@),
        damage_priority: listed(names, "AI_FLAG_DAMAGE_PRIORITY"@),
        baton_pass: listed(names, "AI_FLAG_BATON_PASS"@),
        tag_strategy: listed(names, "AI_FLAG_TAG_STRATEGY"@),
        check_hp: listed(names, "AI_FLAG_CHECK_HP"@),
        weather: listed(names, "AI_FLAG_WEATHER"@),
        harrassment: listed(names, "AI_FLAG_HARRASSMENT"@),
        roaming_pokemon: listed(names, "AI_FLAG_ROAMING_POKEMON"@),
        safari: listed(names, "AI_FLAG_SAFARI"@),
        catch_tutorial: listed(names, "AI_FLAG_CATCH_TUTORIAL"@),
    }
}

spec fn flag_step(f: AiFlags, n: Seq<char>) -> AiFlags {
    AiFlags {
        basic: f.basic || n == "AI_FLAG_BASIC"@,
        eval_attack: f.eval_attack || n == "AI_FLAG_EVAL_ATTACK"@,
        expert: f.expert || n == "AI_FLAG_EXPERT"@,
        setup_first_turn: f.setup_first_turn || n == "AI_FLAG_SETUP_FIRST_TURN"@,
        risky: f.risky || n == "AI_FLAG_RISKY"@,
        damage_priority: f.damage_priority || n == "AI_FLAG_DAMAGE_PRIORITY"@,
        baton_pass: f.baton_pass || n == "AI_FLAG_BATON_PASS"@,
        tag_strategy: f.tag_strategy || n == "AI_FLAG_TAG_STRATEGY"@,
        check_hp: f.check_hp || n == "AI_FLAG_CHECK_HP"@,
        weather: f.weather || n == "AI_FLAG_WEATHER"@,
        harrassment: f.harrassment || n == "AI_FLAG_HARRASSMENT"@,
        roaming_pokemon: f.roaming_pokemon || n == "AI_FLAG_ROAMING_POKEMON"@,
        safari: f.safari || n == "AI_FLAG_SAFARI"@,
        catch_tutorial: f.catch_tutorial || n == "AI_FLAG_CATCH_TUTORIAL"@,
    }
}

fn add_flag(f: AiFlags, n: &str) -> (r: AiFlags)
    ensures
        r == flag_step(f, n@),
{
    AiFlags {
        basic: f.basic || str_eq(n, "AI_FLAG_BASIC"),
        eval_attack: f.eval_attack || str_eq(n, "AI_FLAG_EVAL_ATTACK"),
        expert: f.expert || str_eq(n, "AI_FLAG_EXPERT"),
        setup_first_turn: f.setup_first_turn || str_eq(n, "AI_FLAG_SETUP_FIRST_TURN"),
        risky: f.risky || str_eq(n, "AI_FLAG_RISKY"),
        damage_priority: f.damage_priority || str_eq(n, "AI_FLAG_DAMAGE_PRIORITY"),
        baton_pass: f.baton_pass || str_eq(n, "AI_FLAG_BATON_PASS"),
        tag_strategy: f.tag_strategy || str_eq(n, "AI_FLAG_TAG_STRATEGY"),
        check_hp: f.check_hp || str_eq(n, "AI_FLAG_CHECK_HP"),
        weather: f.weather || str_eq(n, "AI_FLAG_WEATHER"),
        harrassment: f.harrassment || str_eq(n, "AI_FLAG_HARRASSMENT"),
        roaming_pokemon: f.roaming_pokemon || str_eq(n, "AI_FLAG_ROAMING_POKEMON"),
        safari: f.safari || str_eq(n, "AI_FLAG_SAFARI"),
        catch_tutorial: f.catch_tutorial || str_eq(n, "AI_FLAG_CATCH_TUTORIAL"),
    }
}

proof fn lemma_listed_step(names: Seq<String>, i: int)
    requires
        0 <= i < names.len(),
    ensures
        forall|n: Seq<char>| #[trigger] listed(names.take(i + 1), n) == (listed(names.take(i), n) || names[i]@ == n),
{
    assert forall|n: Seq<char>| #[trigger] listed(names.take(i + 1), n) == (listed(names.take(i), n) || names[i]@ == n) by {
        if listed(names.take(i + 1), n) {
            let j = choose|j: int| 0 <= j < names.take(i + 1).len() && #[trigger] names.take(i + 1)[j]@ == n;
            if j < i {
                assert(names.take(i)[j] == names[j]);
            }
        }
        if listed(names.take(i), n) {
            let j = choose|j: int| 0 <= j < names.take(i).len() && #[trigger] names.take(i)[j]@ == n;
            assert(names.take(i + 1)[j] == names[j]);
        }
        if names[i]@ == n {
            assert(names.take(i + 1)[i] == names[i]);
        }
    }
}

/// The AI flags the names set.
fn ai_flags_from(names: &Vec<String>) -> (r: AiFlags)
    ensures
        r == ai_flags_of(names@),
{
    let mut f = AiFlags {
        basic: false,
        eval_attack: false,
        expert: false,
        setup_first_turn: false,
        risky: false,
        damage_priority: false,
        baton_pass: false,
        tag_strategy: false,
        check_hp: false,
        weather: false,
        harrassment: false,
        roaming_pokemon: false,
        safari: false,
        catch_tutorial: false,
    };
    let mut i: usize = 0;
    assert(f == ai_flags_of(names@.take(0)));
    while i < names.len()
        invariant
            i <= names@.len(),
            f == ai_flags_of(names@.take(i as int)),
        decreases names@.len() - i,
    {
        proof { lemma_listed_step(names@, i as int); }
        f = add_flag(f, names[i].as_str());
        i = i + 1;
    }
    assert(names@.take(names@.len() as int) =~= names@);
    f
}

/// `resolve` gave `pg[j]` for the lookups of party entry `j`, for the
/// entries up to the first whose lookups stopped.
pub open spec fn party_lookups_by<F: Fn(&str) -> Option<i64>>(
    resolve: F,
    party: Seq<DecompPartyMember>,
    pg: Seq<Seq<Option<i64>>>,
) -> bool {
    &&& pg.len() <= party.len()
    &&& forall|j: int| 0 <= j < pg.len() ==> lookups_by(resolve, member_lookups(party[j]), #[trigger] pg[j])
    &&& forall|j: int| 0 <= j < pg.len() - 1 ==> all_found(member_lookups(party[j]), #[trigger] pg[j])
    &&& pg.len() < party.len() ==> pg.len() > 0 && !all_found(member_lookups(party[pg.len() - 1]), pg.last())
}

/// `resolve` gave `hg` for the trainer's own lookups and `pg` for its
/// party's, in the order they are made: the party is looked up only once
/// the trainer's own lookups all yielded a value.
pub open spec fn trainer_lookups_by<F: Fn(&str) -> Option<i64>>(
    resolve: F,
    d: DecompTrainerData,
    hg: Seq<Option<i64>>,
    pg: Seq<Seq<Option<i64>>>,
) -> bool {
    &&& lookups_by(resolve, head_lookups(d), hg)
    &&& if all_found(head_lookups(d), hg) {
        party_lookups_by(resolve, d.party@, pg)
    } else {
        pg.len() == 0
    }
}

/// The trainer's properties given the values its own lookups yielded.
pub open spec fn head_fields(d: DecompTrainerData, vals: Seq<i64>, p: TrainerProperties) -> bool {
    &&& p.flags == TrainerFlags {
        has_moves: exists|j: int| 0 <= j < d.party@.len() && (#[trigger] d.party@[j]).moves is Some,
        has_items: exists|j: int| 0 <= j < d.party@.len() && (#[trigger] d.party@[j]).item is Some,
    }
    &&& p.trainer_class == vals[0] as u8
    &&& p.unknown == 0
    &&& p.party_count == d.party@.len() as u8
    &&& forall|k: int| 0 <= k < 4 ==> #[trigger] p.items@[k] == if k < min4(d.items@.len()) { vals[1 + k] as u16 } else { 0u16 }
    &&& p.ai_flags == ai_flags_of(d.ai_flags@)
    &&& p.double_battle == if d.double_battle { 1u32 } else { 0u32 }
}

/// The conversion's result given what the lookups gave: the error of the
/// first lookup that yielded nothing, else the trainer.
pub open spec fn trainer_result(
    d: DecompTrainerData,
    hg: Seq<Option<i64>>,
    pg: Seq<Seq<Option<i64>>>,
    r: Result<TrainerData, UxieError>,
) -> bool {
    if !all_found(head_lookups(d), hg) {
        r matches Err(e) && invalid_data_text(e) == Some(lookup_error(head_lookups(d)[hg.len() - 1]))
    } else if pg.len() > 0 && !all_found(member_lookups(d.party@[pg.len() - 1]), pg.last()) {
        r matches Err(e) && invalid_data_text(e) == Some(
            lookup_error(member_lookups(d.party@[pg.len() - 1])[pg.last().len() - 1]),
        )
    } else {
        r matches Ok(t) && head_fields(d, found(head_lookups(d), hg), t.properties) && t.party@.len()
            == d.party@.len() && forall|j: int|
            0 <= j < d.party@.len() ==> member_fields(
                d.party@[j],
                found(member_lookups(d.party@[j]), pg[j]),
                #[trigger] t.party@[j],
            )
    }
}

impl DecompTrainerData {
    /// Convert this trainer to a [`TrainerData`], resolving its symbolic
    /// names with `resolve_constant`: the trainer class and the first four
    /// items, then for each party entry its species, held item, first four
    /// moves and overrides, in that order. Lookup stops at the first name
    /// that yields nothing, which is the error; a gender or ability
    /// override the table does not resolve may be one of the three
    /// `TRPOKE_*_OVERRIDE_*` names of its kind.
    pub fn to_trainer_data<F: Fn(&str) -> Option<i64>>(&self, resolve_constant: F) -> (r: Result<TrainerData, UxieError>)
        requires
            forall|s: &str| call_requires(resolve_constant, (s,)),
        ensures
            exists|hg: Seq<Option<i64>>, pg: Seq<Seq<Option<i64>>>|
                trainer_lookups_by(resolve_constant, *self, hg, pg) && trainer_result(*self, hg, pg, r),
    {
        let head = head_lookup_items(self);
        let (hv, Ghost(hg)) = resolve_lookups(&resolve_constant, &head);
        if hv.len() < head.len() {
            let e = lookup_failure(&head[hv.len()]);
            let r: Result<TrainerData, UxieError> = Err(e);
            assert(trainer_lookups_by(resolve_constant, *self, hg, Seq::empty()));
            assert(trainer_result(*self, hg, Seq::empty(), r));
            return r;
        }
        let mut has_moves = false;
        let mut has_items = false;
        let mut j: usize = 0;
        while j < self.party.len()
            invariant
                j <= self.party@.len(),
                has_moves == exists|i: int| 0 <= i < j && (#[trigger] self.party@[i]).moves is Some,
                has_items == exists|i: int| 0 <= i < j && (#[trigger] self.party@[i]).item is Some,
            decreases self.party@.len() - j,
        {
            if self.party[j].moves.is_some() {
                has_moves = true;
            }
            if self.party[j].item.is_some() {
                has_items = true;
            }
            j = j + 1;
        }
        let n_items: usize = if self.items.len() < 4 { self.items.len() } else { 4 };
        let i0: u16 = if 0 < n_items { hv[1] as u16 } else { 0 };
        let i1: u16 = if 1 < n_items { hv[2] as u16 } else { 0 };
        let i2: u16 = if 2 < n_items { hv[3] as u16 } else { 0 };
        let i3: u16 = if 3 < n_items { hv[4] as u16 } else { 0 };
        let items = [i0, i1, i2, i3];
        assert(items@ =~= seq![i0, i1, i2, i3]);
        let properties = TrainerProperties {
            flags: TrainerFlags { has_moves, has_items },
            trainer_class: hv[0] as u8,
            unknown: 0,
            party_count: self.party.len() as u8,
            items,
            ai_flags: ai_flags_from(&self.ai_flags),
            double_battle: if self.double_battle { 1 } else { 0 },
        };
        assert(head_fields(*self, found(head_lookups(*self), hg), properties));
        let mut party: Vec<PartyPokemon> = Vec::new();
        let ghost mut pg: Seq<Seq<Option<i64>>> = Seq::empty();
        let mut j: usize = 0;
        while j < self.party.len()
            invariant
                j <= self.party@.len(),
                forall|s: &str| call_requires(resolve_constant, (s,)),
                all_found(head_lookups(*self), hg),
                lookups_by(resolve_constant, head_lookups(*self), hg),
                head_fields(*self, found(head_lookups(*self), hg), properties),
                pg.len() == j,
                party@.len() == j,
                forall|i: int| 0 <= i < j ==> lookups_by(resolve_constant, member_lookups(self.party@[i]), #[trigger] pg[i]),
                forall|i: int| 0 <= i < j ==> all_found(member_lookups(self.party@[i]), #[trigger] pg[i]),
                forall|i: int| 0 <= i < j ==> member_fields(
                    self.party@[i],
                    found(member_lookups(self.party@[i]), pg[i]),
                    #[trigger] party@[i],
                ),
            decreases self.party@.len() - j,
        {
            let ls = member_lookup_items(&self.party[j]);
            let (mv, Ghost(g)) = resolve_lookups(&resolve_constant, &ls);
            let ghost pg0 = pg;
            proof {
                pg = pg.push(g);
                assert forall|i: int| 0 <= i < j implies pg[i] == pg0[i] by {}
            }
            if mv.len() < ls.len() {
                let e = lookup_failure(&ls[mv.len()]);
                let r: Result<TrainerData, UxieError> = Err(e);
                proof {
                    assert(pg.last() == g);
                    assert(party_lookups_by(resolve_constant, self.party@, pg));
                    assert(trainer_lookups_by(resolve_constant, *self, hg, pg));
                    assert(trainer_result(*self, hg, pg, r));
                }
                return r;
            }
            let p = party_pokemon_of(&self.party[j], &mv);
            let ghost party0 = party@;
            party.push(p);
            proof {
                assert forall|i: int| 0 <= i <= j implies member_fields(
                    self.party@[i],
                    found(member_lookups(self.party@[i]), pg[i]),
                    #[trigger] party@[i],
                ) by {
                    if i < j {
                        assert(party@[i] == party0[i]);
                    }
                }
            }
            j = j + 1;
        }
        let r: Result<TrainerData, UxieError> = Ok(TrainerData { properties, party });
        proof {
            assert(party_lookups_by(resolve_constant, self.party@, pg));
            assert(trainer_lookups_by(resolve_constant, *self, hg, pg));
            assert(trainer_result(*self, hg, pg, r));
        }
        r
    }
}

} // verus!
