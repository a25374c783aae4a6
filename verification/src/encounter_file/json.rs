//! Encounter tables in the JSON form of the tools: species are written by
//! name (a `SPECIES_*` constant) or as a decimal number.
use vstd::prelude::*;
use crate::c_parser::symbol_table::{SymbolTable, SymView, empty_view, lookups_safe, lemma_lookups_safe, resolved, shortest_name, starts_with, name_view};
use crate::encounter_file::{BinaryEncounterFile, EncounterEntry, WaterEncounterEntry};
use crate::error::{UxieError, invalid_data_text};
use crate::game::GameFamily;
use crate::text::{chars_of, parse_u32, parse_int_range, dec, push_str, u64_to_string};

verus! {

/// A land slot: level and species.
#[derive(Debug, Clone)]
pub struct EncounterEntryJson {
    pub level: u8,
    pub species: String,
}

/// A water or rock smash slot: level range and species.
#[derive(Debug, Clone)]
pub struct WaterEncounterEntryJson {
    pub level_min: u8,
    pub level_max: u8,
    pub species: String,
}

/// An encounter table with species by name.
#[derive(Debug, Clone)]
pub struct JsonEncounterFile {
    pub land_rate: u32,
    pub land_encounters: Vec<EncounterEntryJson>,
    pub swarms: Vec<String>,
    pub day: Vec<String>,
    pub night: Vec<String>,
    pub radar: Vec<String>,
    pub rate_form0: u32,
    pub rate_form1: u32,
    pub rate_form2: u32,
    pub rate_form3: u32,
    pub rate_form4: u32,
    pub unown_table: u32,
    pub ruby: Vec<String>,
    pub sapphire: Vec<String>,
    pub emerald: Vec<String>,
    pub firered: Vec<String>,
    pub leafgreen: Vec<String>,
    pub surf_rate: u32,
    pub surf_encounters: Vec<WaterEncounterEntryJson>,
    pub old_rod_rate: u32,
    pub old_rod_encounters: Vec<WaterEncounterEntryJson>,
    pub good_rod_rate: u32,
    pub good_rod_encounters: Vec<WaterEncounterEntryJson>,
    pub super_rod_rate: u32,
    pub super_rod_encounters: Vec<WaterEncounterEntryJson>,
    /// HeartGold/SoulSilver only.
    pub music: Option<Vec<String>>,
    /// HeartGold/SoulSilver only.
    pub rock_smash_rate: Option<u32>,
    /// HeartGold/SoulSilver only.
    pub rock_smash_encounters: Option<Vec<WaterEncounterEntryJson>>,
    /// HeartGold/SoulSilver only.
    pub morning: Option<Vec<EncounterEntryJson>>,
}

// ----- species names -----

/// The species a name stands for: a known constant (cut to 32 bits), else
/// a decimal `u32`.
pub open spec fn species_id(syms: SymView, name: Seq<char>) -> Option<u32> {
    match resolved(syms, name) {
        Some(v) => Some(v as u32),
        None => match parse_u32(name) {
            Some(n) => Some(n as u32),
            None => None,
        },
    }
}

/// The message for a species name that is neither a known constant nor a
/// number.
pub open spec fn species_error(name: Seq<char>) -> Seq<char> {
    "Failed to resolve species '"@ + name + "'"@
}

/// The first name of `s` that names no species.
pub open spec fn first_unresolved(syms: SymView, s: Seq<Seq<char>>) -> Option<Seq<char>>
    decreases s.len(),
{
    if s.len() == 0 {
        None
    } else {
        match first_unresolved(syms, s.drop_last()) {
            Some(x) => Some(x),
            None => if species_id(syms, s.last()) is None {
                Some(s.last())
            } else {
                None
            },
        }
    }
}

/// The id of a species name already known to resolve.
pub open spec fn id_of(syms: SymView, name: Seq<char>) -> u32 {
    match species_id(syms, name) {
        Some(v) => v,
        None => 0,
    }
}

/// The name a species id is written with: its shortest `SPECIES_*`
/// constant, else the number.
pub open spec fn species_name(syms: SymView, id: u32) -> Seq<char> {
    match shortest_name(syms.entries, id as i64, |n: Seq<char>| starts_with(n, "SPECIES_"@)) {
        Some(n) => n,
        None => dec(id as nat),
    }
}

pub open spec fn strings_view(v: Seq<String>) -> Seq<Seq<char>> {
    v.map_values(|s: String| s@)
}

pub open spec fn land_view(v: Seq<EncounterEntryJson>) -> Seq<(u8, Seq<char>)> {
    v.map_values(|e: EncounterEntryJson| (e.level, e.species@))
}

pub open spec fn water_view(v: Seq<WaterEncounterEntryJson>) -> Seq<(u8, u8, Seq<char>)> {
    v.map_values(|e: WaterEncounterEntryJson| (e.level_min, e.level_max, e.species@))
}

pub open spec fn opt_strings(o: Option<Vec<String>>) -> Seq<Seq<char>> {
    match o {
        Some(v) => strings_view(v@),
        None => Seq::empty(),
    }
}

pub open spec fn opt_land(o: Option<Vec<EncounterEntryJson>>) -> Seq<(u8, Seq<char>)> {
    match o {
        Some(v) => land_view(v@),
        None => Seq::empty(),
    }
}

pub open spec fn opt_water(o: Option<Vec<WaterEncounterEntryJson>>) -> Seq<(u8, u8, Seq<char>)> {
    match o {
        Some(v) => water_view(v@),
        None => Seq::empty(),
    }
}

/// At most the first `n` items.
pub open spec fn first_n<T>(s: Seq<T>, n: nat) -> Seq<T> {
    if s.len() <= n { s } else { s.take(n as int) }
}

/// `n` slots of species ids: the names, resolved, then zeros.
pub open spec fn id_slots(syms: SymView, names: Seq<Seq<char>>, n: nat) -> Seq<u32> {
    Seq::new(n, |i: int| if i < names.len() { id_of(syms, names[i]) } else { 0u32 })
}

/// `n` land slots: the entries with their species resolved, then zeros.
pub open spec fn land_slots(syms: SymView, e: Seq<(u8, Seq<char>)>, n: nat) -> Seq<EncounterEntry> {
    Seq::new(
        n,
        |i: int|
            if i < e.len() {
                EncounterEntry { level: e[i].0, species: id_of(syms, e[i].1) }
            } else {
                EncounterEntry { level: 0, species: 0 }
            },
    )
}

/// `n` water slots: the entries with their species resolved, then zeros.
pub open spec fn water_slots(syms: SymView, e: Seq<(u8, u8, Seq<char>)>, n: nat) -> Seq<WaterEncounterEntry> {
    Seq::new(
        n,
        |i: int|
            if i < e.len() {
                WaterEncounterEntry { min_level: e[i].0, max_level: e[i].1, species: id_of(syms, e[i].2) }
            } else {
                WaterEncounterEntry { min_level: 0, max_level: 0, species: 0 }
            },
    )
}

pub open spec fn land_names(e: Seq<(u8, Seq<char>)>) -> Seq<Seq<char>> {
    e.map_values(|x: (u8, Seq<char>)| x.1)
}

pub open spec fn water_names(e: Seq<(u8, u8, Seq<char>)>) -> Seq<Seq<char>> {
    e.map_values(|x: (u8, u8, Seq<char>)| x.2)
}

/// The music slots of HeartGold/SoulSilver: the music list, or the radar
/// list when there is none.
pub open spec fn music_names(j: JsonEncounterFile) -> Seq<Seq<char>> {
    match j.music {
        Some(m) => strings_view(m@),
        None => strings_view(j.radar@),
    }
}

/// The species names `to_binary` reads, list by list in the order it reads
/// them, each list cut to its slot count.
pub open spec fn read_pieces(j: JsonEncounterFile, family: GameFamily) -> Seq<Seq<Seq<char>>> {
    seq![
        first_n(land_names(opt_land(j.morning)), 12),
        first_n(water_names(opt_water(j.rock_smash_encounters)), 2),
        if family == GameFamily::HGSS { first_n(music_names(j), 4) } else { Seq::empty() },
        first_n(land_names(land_view(j.land_encounters@)), 12),
        first_n(strings_view(j.swarms@), 4),
        first_n(strings_view(j.day@), 12),
        first_n(strings_view(j.night@), 12),
        first_n(strings_view(j.radar@), 4),
        first_n(strings_view(j.ruby@), 2),
        first_n(strings_view(j.sapphire@), 2),
        first_n(strings_view(j.emerald@), 2),
        first_n(strings_view(j.firered@), 2),
        first_n(strings_view(j.leafgreen@), 2),
        first_n(water_names(water_view(j.surf_encounters@)), 5),
        first_n(water_names(water_view(j.old_rod_encounters@)), 5),
        first_n(water_names(water_view(j.good_rod_encounters@)), 5),
        first_n(water_names(water_view(j.super_rod_encounters@)), 5),
    ]
}

/// The message for a HeartGold/SoulSilver table without a rock smash rate.
pub open spec fn missing_rock_smash_rate() -> Seq<char> {
    "Missing required HGSS encounter field 'rock_smash_rate'"@
}

/// Why a table cannot be written for `family`: a HeartGold/SoulSilver table
/// needs a rock smash rate, and every species name read must resolve; the
/// first that does not is reported.
pub open spec fn to_binary_error(j: JsonEncounterFile, syms: SymView, family: GameFamily) -> Option<Seq<char>> {
    if family == GameFamily::HGSS && j.rock_smash_rate is None {
        Some(missing_rock_smash_rate())
    } else {
        match first_unresolved(syms, read_pieces(j, family).flatten_alt()) {
            Some(n) => Some(species_error(n)),
            None => None,
        }
    }
}

/// `b` is the binary table of `j`: every list resolved into its slots.
pub open spec fn binary_of_json(j: JsonEncounterFile, syms: SymView, family: GameFamily, b: BinaryEncounterFile) -> bool {
    &&& b.walking_rate == j.land_rate
    &&& b.grass_encounters@ == land_slots(syms, land_view(j.land_encounters@), 12)
    &&& b.swarm_encounters@ == id_slots(syms, strings_view(j.swarms@), 4)
    &&& b.day_encounters@ == id_slots(syms, strings_view(j.day@), 12)
    &&& b.night_encounters@ == id_slots(syms, strings_view(j.night@), 12)
    &&& b.radar_encounters@ == id_slots(syms, strings_view(j.radar@), 4)
    &&& b.music_encounters@ == id_slots(syms, if family == GameFamily::HGSS { music_names(j) } else { Seq::empty() }, 4)
    &&& b.form_encounter_rates@ == seq![j.rate_form0, j.rate_form1, j.rate_form2, j.rate_form3, j.rate_form4]
    &&& b.unown_table_id == j.unown_table
    &&& b.dual_slot_ruby@ == id_slots(syms, strings_view(j.ruby@), 2)
    &&& b.dual_slot_sapphire@ == id_slots(syms, strings_view(j.sapphire@), 2)
    &&& b.dual_slot_emerald@ == id_slots(syms, strings_view(j.emerald@), 2)
    &&& b.dual_slot_firered@ == id_slots(syms, strings_view(j.firered@), 2)
    &&& b.dual_slot_leafgreen@ == id_slots(syms, strings_view(j.leafgreen@), 2)
    &&& b.surf_rate == j.surf_rate
    &&& b.surf_encounters@ == water_slots(syms, water_view(j.surf_encounters@), 5)
    &&& b.old_rod_rate == j.old_rod_rate
    &&& b.old_rod_encounters@ == water_slots(syms, water_view(j.old_rod_encounters@), 5)
    &&& b.good_rod_rate == j.good_rod_rate
    &&& b.good_rod_encounters@ == water_slots(syms, water_view(j.good_rod_encounters@), 5)
    &&& b.super_rod_rate == j.super_rod_rate
    &&& b.super_rod_encounters@ == water_slots(syms, water_view(j.super_rod_encounters@), 5)
    &&& b.rock_smash_rate == (match j.rock_smash_rate {
        Some(r) => r,
        None => 0u32,
    })
    &&& b.rock_smash_encounters@ == water_slots(syms, opt_water(j.rock_smash_encounters), 2)
    &&& b.morning_encounters@ == land_slots(syms, opt_land(j.morning), 12)
}

// ----- resolving -----

fn resolve_species(symbols: &SymbolTable, name: &str) -> (r: Option<u32>)
    requires
        lookups_safe(symbols.sv()),
    ensures
        r == species_id(symbols.sv(), name@),
{
    proof { lemma_lookups_safe(symbols.sv(), name@); }
    match symbols.resolve_constant(name) {
        Some(v) => Some(v as u32),
        None => {
            let c = chars_of(name);
            assert(c@.subrange(0, c@.len() as int) =~= name@);
            match parse_int_range(&c, 0, c.len(), 10, false, 0, 0xffff_ffff) {
                Some(n) => Some(n as u32),
                None => None,
            }
        },
    }
}

proof fn lemma_first_unresolved_push(syms: SymView, s: Seq<Seq<char>>, x: Seq<char>)
    ensures
        first_unresolved(syms, s.push(x)) == (match first_unresolved(syms, s) {
            Some(y) => Some(y),
            None => if species_id(syms, x) is None { Some(x) } else { None },
        }),
{
    assert(s.push(x).drop_last() =~= s);
}

/// `first_unresolved` of a concatenation: the first name of the first part,
/// else of the second.
pub proof fn lemma_first_unresolved_concat(syms: SymView, a: Seq<Seq<char>>, b: Seq<Seq<char>>)
    ensures
        first_unresolved(syms, a + b) == (match first_unresolved(syms, a) {
            Some(y) => Some(y),
            None => first_unresolved(syms, b),
        }),
    decreases b.len(),
{
    if b.len() == 0 {
        assert(a + b =~= a);
    } else {
        lemma_first_unresolved_concat(syms, a, b.drop_last());
        assert((a + b).drop_last() =~= a + b.drop_last());
    }
}

/// The first `n` species names of `names` resolved into `n` slots.
fn species_slots(symbols: &SymbolTable, names: &Vec<String>, n: usize) -> (r: Result<Vec<u32>, String>)
    requires
        lookups_safe(symbols.sv()),
    ensures
        match r {
            Ok(v) => first_unresolved(symbols.sv(), first_n(strings_view(names@), n as nat)) is None
                && v@ == id_slots(symbols.sv(), strings_view(names@), n as nat),
            Err(m) => first_unresolved(symbols.sv(), first_n(strings_view(names@), n as nat)) == Some(m@),
        },
{
    let ghost sv = strings_view(names@);
    let mut out: Vec<u32> = Vec::new();
    let mut i: usize = 0;
    while i < n
        invariant
            lookups_safe(symbols.sv()),
            i <= n,
            sv == strings_view(names@),
            out@.len() == i,
            forall|k: int| 0 <= k < i ==> out@[k] == (if k < sv.len() { id_of(symbols.sv(), sv[k]) } else { 0u32 }),
            first_unresolved(symbols.sv(), first_n(sv, i as nat)) is None,
        decreases n - i,
    {
        let ghost pre = first_n(sv, i as nat);
        if i < names.len() {
            assert(first_n(sv, (i + 1) as nat) =~= pre.push(sv[i as int]));
            proof { lemma_first_unresolved_push(symbols.sv(), pre, sv[i as int]); }
            match resolve_species(symbols, names[i].as_str()) {
                Some(v) => {
                    out.push(v);
                },
                None => {
                    proof { lemma_unresolved_stays(symbols.sv(), sv, (i + 1) as nat, n as nat); }
                    return Err(names[i].clone());
                },
            }
        } else {
            assert(first_n(sv, (i + 1) as nat) =~= pre);
            out.push(0);
        }
        i = i + 1;
    }
    assert(out@ =~= id_slots(symbols.sv(), sv, n as nat));
    Ok(out)
}

/// Once a prefix of names holds an unresolved one, longer prefixes report
/// the same.
proof fn lemma_unresolved_stays(syms: SymView, s: Seq<Seq<char>>, k: nat, n: nat)
    requires
        k <= n,
        first_unresolved(syms, first_n(s, k)) is Some,
    ensures
        first_unresolved(syms, first_n(s, n)) == first_unresolved(syms, first_n(s, k)),
    decreases n - k,
{
    if k < n {
        lemma_unresolved_stays(syms, s, k, (n - 1) as nat);
        if n - 1 < s.len() {
            assert(first_n(s, n) =~= first_n(s, (n - 1) as nat).push(s[n - 1]));
            lemma_first_unresolved_push(syms, first_n(s, (n - 1) as nat), s[n - 1]);
        } else {
            assert(first_n(s, n) =~= first_n(s, (n - 1) as nat));
        }
    }
}


fn land_slots_exec(symbols: &SymbolTable, entries: &Vec<EncounterEntryJson>, n: usize) -> (r: Result<Vec<EncounterEntry>, String>)
    requires
        lookups_safe(symbols.sv()),
    ensures
        match r {
            Ok(v) => first_unresolved(symbols.sv(), first_n(land_names(land_view(entries@)), n as nat)) is None
                && v@ == land_slots(symbols.sv(), land_view(entries@), n as nat),
            Err(m) => first_unresolved(symbols.sv(), first_n(land_names(land_view(entries@)), n as nat)) == Some(m@),
        },
{
    let ghost lv = land_view(entries@);
    let ghost sv = land_names(lv);
    let mut out: Vec<EncounterEntry> = Vec::new();
    let mut i: usize = 0;
    while i < n
        invariant
            lookups_safe(symbols.sv()),
            i <= n,
            lv == land_view(entries@),
            sv == land_names(lv),
            out@.len() == i,
            forall|k: int| 0 <= k < i ==> out@[k] == (if k < lv.len() {
                EncounterEntry { level: lv[k].0, species: id_of(symbols.sv(), lv[k].1) }
            } else {
                EncounterEntry { level: 0, species: 0 }
            }),
            first_unresolved(symbols.sv(), first_n(sv, i as nat)) is None,
        decreases n - i,
    {
        let ghost pre = first_n(sv, i as nat);
        if i < entries.len() {
            assert(sv[i as int] == entries@[i as int].species@);
            assert(first_n(sv, (i + 1) as nat) =~= pre.push(sv[i as int]));
            proof { lemma_first_unresolved_push(symbols.sv(), pre, sv[i as int]); }
            match resolve_species(symbols, entries[i].species.as_str()) {
                Some(v) => {
                    out.push(EncounterEntry { level: entries[i].level, species: v });
                },
                None => {
                    proof { lemma_unresolved_stays(symbols.sv(), sv, (i + 1) as nat, n as nat); }
                    return Err(entries[i].species.clone());
                },
            }
        } else {
            assert(first_n(sv, (i + 1) as nat) =~= pre);
            out.push(EncounterEntry { level: 0, species: 0 });
        }
        i = i + 1;
    }
    assert(out@ =~= land_slots(symbols.sv(), lv, n as nat));
    Ok(out)
}

fn water_slots_exec(symbols: &SymbolTable, entries: &Vec<WaterEncounterEntryJson>, n: usize) -> (r: Result<Vec<WaterEncounterEntry>, String>)
    requires
        lookups_safe(symbols.sv()),
    ensures
        match r {
            Ok(v) => first_unresolved(symbols.sv(), first_n(water_names(water_view(entries@)), n as nat)) is None
                && v@ == water_slots(symbols.sv(), water_view(entries@), n as nat),
            Err(m) => first_unresolved(symbols.sv(), first_n(water_names(water_view(entries@)), n as nat)) == Some(m@),
        },
{
    let ghost lv = water_view(entries@);
    let ghost sv = water_names(lv);
    let mut out: Vec<WaterEncounterEntry> = Vec::new();
    let mut i: usize = 0;
    while i < n
        invariant
            lookups_safe(symbols.sv()),
            i <= n,
            lv == water_view(entries@),
            sv == water_names(lv),
            out@.len() == i,
            forall|k: int| 0 <= k < i ==> out@[k] == (if k < lv.len() {
                WaterEncounterEntry { min_level: lv[k].0, max_level: lv[k].1, species: id_of(symbols.sv(), lv[k].2) }
            } else {
                WaterEncounterEntry { min_level: 0, max_level: 0, species: 0 }
            }),
            first_unresolved(symbols.sv(), first_n(sv, i as nat)) is None,
        decreases n - i,
    {
        let ghost pre = first_n(sv, i as nat);
        if i < entries.len() {
            assert(sv[i as int] == entries@[i as int].species@);
            assert(first_n(sv, (i + 1) as nat) =~= pre.push(sv[i as int]));
            proof { lemma_first_unresolved_push(symbols.sv(), pre, sv[i as int]); }
            match resolve_species(symbols, entries[i].species.as_str()) {
                Some(v) => {
                    out.push(WaterEncounterEntry { min_level: entries[i].level_min, max_level: entries[i].level_max, species: v });
                },
                None => {
                    proof { lemma_unresolved_stays(symbols.sv(), sv, (i + 1) as nat, n as nat); }
                    return Err(entries[i].species.clone());
                },
            }
        } else {
            assert(first_n(sv, (i + 1) as nat) =~= pre);
            out.push(WaterEncounterEntry { min_level: 0, max_level: 0, species: 0 });
        }
        i = i + 1;
    }
    assert(out@ =~= water_slots(symbols.sv(), lv, n as nat));
    Ok(out)
}

fn u32_array2(v: &Vec<u32>) -> (a: [u32; 2])
    requires
        v@.len() == 2,
    ensures
        a@ == v@,
{
    let mut a = [0u32; 2];
    let mut i: usize = 0;
    while i < 2
        invariant
            i <= 2,
            v@.len() == 2,
            forall|k: int| 0 <= k < i ==> a@[k] == v@[k],
        decreases 2 - i,
    {
        a.set(i, v[i]);
        i = i + 1;
    }
    assert(a@ =~= v@);
    a
}

fn u32_array4(v: &Vec<u32>) -> (a: [u32; 4])
    requires
        v@.len() == 4,
    ensures
        a@ == v@,
{
    let mut a = [0u32; 4];
    let mut i: usize = 0;
    while i < 4
        invariant
            i <= 4,
            v@.len() == 4,
            forall|k: int| 0 <= k < i ==> a@[k] == v@[k],
        decreases 4 - i,
    {
        a.set(i, v[i]);
        i = i + 1;
    }
    assert(a@ =~= v@);
    a
}

fn u32_array12(v: &Vec<u32>) -> (a: [u32; 12])
    requires
        v@.len() == 12,
    ensures
        a@ == v@,
{
    let mut a = [0u32; 12];
    let mut i: usize = 0;
    while i < 12
        invariant
            i <= 12,
            v@.len() == 12,
            forall|k: int| 0 <= k < i ==> a@[k] == v@[k],
        decreases 12 - i,
    {
        a.set(i, v[i]);
        i = i + 1;
    }
    assert(a@ =~= v@);
    a
}

fn land_array12(v: &Vec<EncounterEntry>) -> (a: [EncounterEntry; 12])
    requires
        v@.len() == 12,
    ensures
        a@ == v@,
{
    let mut a = [EncounterEntry { level: 0, species: 0 }; 12];
    let mut i: usize = 0;
    while i < 12
        invariant
            i <= 12,
            v@.len() == 12,
            forall|k: int| 0 <= k < i ==> a@[k] == v@[k],
        decreases 12 - i,
    {
        a.set(i, v[i]);
        i = i + 1;
    }
    assert(a@ =~= v@);
    a
}

fn water_array2(v: &Vec<WaterEncounterEntry>) -> (a: [WaterEncounterEntry; 2])
    requires
        v@.len() == 2,
    ensures
        a@ == v@,
{
    let mut a = [WaterEncounterEntry { min_level: 0, max_level: 0, species: 0 }; 2];
    let mut i: usize = 0;
    while i < 2
        invariant
            i <= 2,
            v@.len() == 2,
            forall|k: int| 0 <= k < i ==> a@[k] == v@[k],
        decreases 2 - i,
    {
        a.set(i, v[i]);
        i = i + 1;
    }
    assert(a@ =~= v@);
    a
}

fn water_array5(v: &Vec<WaterEncounterEntry>) -> (a: [WaterEncounterEntry; 5])
    requires
        v@.len() == 5,
    ensures
        a@ == v@,
{
    let mut a = [WaterEncounterEntry { min_level: 0, max_level: 0, species: 0 }; 5];
    let mut i: usize = 0;
    while i < 5
        invariant
            i <= 5,
            v@.len() == 5,
            forall|k: int| 0 <= k < i ==> a@[k] == v@[k],
        decreases 5 - i,
    {
        a.set(i, v[i]);
        i = i + 1;
    }
    assert(a@ =~= v@);
    a
}


/// After the first `k` pieces resolved, the next piece decides the first
/// `k + 1`.
proof fn lemma_piece_step(syms: SymView, pieces: Seq<Seq<Seq<char>>>, k: int)
    requires
        0 <= k < pieces.len(),
        first_unresolved(syms, pieces.take(k).flatten_alt()) is None,
    ensures
        first_unresolved(syms, pieces.take(k + 1).flatten_alt()) == first_unresolved(syms, pieces[k]),
{
    assert(pieces.take(k + 1).drop_last() =~= pieces.take(k));
    lemma_first_unresolved_concat(syms, pieces.take(k).flatten_alt(), pieces[k]);
}

/// A name that fails in the first `k` pieces is the first failure of all.
proof fn lemma_piece_fail(syms: SymView, pieces: Seq<Seq<Seq<char>>>, k: int)
    requires
        0 <= k <= pieces.len(),
        first_unresolved(syms, pieces.take(k).flatten_alt()) is Some,
    ensures
        first_unresolved(syms, pieces.flatten_alt()) == first_unresolved(syms, pieces.take(k).flatten_alt()),
    decreases pieces.len() - k,
{
    if k < pieces.len() {
        assert(pieces.take(k + 1).drop_last() =~= pieces.take(k));
        lemma_first_unresolved_concat(syms, pieces.take(k).flatten_alt(), pieces[k]);
        lemma_piece_fail(syms, pieces, k + 1);
    } else {
        assert(pieces.take(k) =~= pieces);
    }
}

fn species_failure(name: String) -> (e: UxieError)
    ensures
        invalid_data_text(e) == Some(species_error(name@)),
{
    let mut m = String::from_str("Failed to resolve species '");
    push_str(&mut m, name.as_str());
    push_str(&mut m, "'");
    UxieError::invalid_data(m)
}

fn species_name_exec(symbols: &SymbolTable, id: u32) -> (s: String)
    ensures
        s@ == species_name(symbols.sv(), id),
{
    match symbols.resolve_name(id as i64, "SPECIES_") {
        Some(n) => n,
        None => u64_to_string(id as u64),
    }
}

fn names_of<const N: usize>(symbols: &SymbolTable, ids: &[u32; N]) -> (r: Vec<String>)
    ensures
        strings_view(r@) == ids@.map_values(|id: u32| species_name(symbols.sv(), id)),
{
    let mut out: Vec<String> = Vec::new();
    let mut i: usize = 0;
    while i < N
        invariant
            i <= N,
            ids@.len() == N,
            strings_view(out@) == ids@.take(i as int).map_values(|id: u32| species_name(symbols.sv(), id)),
        decreases N - i,
    {
        let id = ids[i];
        let s = species_name_exec(symbols, id);
        let ghost before = strings_view(out@);
        let ghost sg = s@;
        out.push(s);
        assert(strings_view(out@) =~= before.push(sg));
        assert(ids@.take(i + 1).map_values(|id: u32| species_name(symbols.sv(), id)) =~= ids@.take(i as int).map_values(|id: u32| species_name(symbols.sv(), id)).push(species_name(symbols.sv(), id)));
        i = i + 1;
    }
    assert(ids@.take(N as int) =~= ids@);
    out
}

fn land_json_of<const N: usize>(symbols: &SymbolTable, entries: &[EncounterEntry; N]) -> (r: Vec<EncounterEntryJson>)
    ensures
        land_view(r@) == entries@.map_values(|e: EncounterEntry| (e.level, species_name(symbols.sv(), e.species))),
{
    let mut out: Vec<EncounterEntryJson> = Vec::new();
    let mut i: usize = 0;
    while i < N
        invariant
            i <= N,
            entries@.len() == N,
            land_view(out@) == entries@.take(i as int).map_values(|e: EncounterEntry| (e.level, species_name(symbols.sv(), e.species))),
        decreases N - i,
    {
        let e = entries[i];
        let s = species_name_exec(symbols, e.species);
        let ghost before = land_view(out@);
        let ghost sg = s@;
        out.push(EncounterEntryJson { level: e.level, species: s });
        assert(land_view(out@) =~= before.push((e.level, sg)));
        assert(entries@.take(i + 1).map_values(|e: EncounterEntry| (e.level, species_name(symbols.sv(), e.species))) =~= entries@.take(i as int).map_values(|e: EncounterEntry| (e.level, species_name(symbols.sv(), e.species))).push((e.level, species_name(symbols.sv(), e.species))));
        assert(land_view(out@) =~= entries@.take(i + 1).map_values(|e: EncounterEntry| (e.level, species_name(symbols.sv(), e.species))));
        i = i + 1;
    }
    assert(entries@.take(N as int) =~= entries@);
    out
}

fn water_json_of<const N: usize>(symbols: &SymbolTable, entries: &[WaterEncounterEntry; N]) -> (r: Vec<WaterEncounterEntryJson>)
    ensures
        water_view(r@) == entries@.map_values(|e: WaterEncounterEntry| (e.min_level, e.max_level, species_name(symbols.sv(), e.species))),
{
    let mut out: Vec<WaterEncounterEntryJson> = Vec::new();
    let mut i: usize = 0;
    while i < N
        invariant
            i <= N,
            entries@.len() == N,
            water_view(out@) == entries@.take(i as int).map_values(|e: WaterEncounterEntry| (e.min_level, e.max_level, species_name(symbols.sv(), e.species))),
        decreases N - i,
    {
        let e = entries[i];
        let s = species_name_exec(symbols, e.species);
        let ghost before = water_view(out@);
        let ghost sg = s@;
        out.push(WaterEncounterEntryJson { level_min: e.min_level, level_max: e.max_level, species: s });
        assert(water_view(out@) =~= before.push((e.min_level, e.max_level, sg)));
        assert(entries@.take(i + 1).map_values(|e: WaterEncounterEntry| (e.min_level, e.max_level, species_name(symbols.sv(), e.species))) =~= entries@.take(i as int).map_values(|e: WaterEncounterEntry| (e.min_level, e.max_level, species_name(symbols.sv(), e.species))).push((e.min_level, e.max_level, species_name(symbols.sv(), e.species))));
        assert(water_view(out@) =~= entries@.take(i + 1).map_values(|e: WaterEncounterEntry| (e.min_level, e.max_level, species_name(symbols.sv(), e.species))));
        i = i + 1;
    }
    assert(entries@.take(N as int) =~= entries@);
    out
}

/// `j` is the JSON form of `b`: every species written by its name.
pub open spec fn json_of_binary(b: BinaryEncounterFile, syms: SymView, family: GameFamily, j: JsonEncounterFile) -> bool {
    let name = |id: u32| species_name(syms, id);
    let land = |e: EncounterEntry| (e.level, species_name(syms, e.species));
    let water = |e: WaterEncounterEntry| (e.min_level, e.max_level, species_name(syms, e.species));
    &&& j.land_rate == b.walking_rate
    &&& land_view(j.land_encounters@) == b.grass_encounters@.map_values(land)
    &&& strings_view(j.swarms@) == b.swarm_encounters@.map_values(name)
    &&& strings_view(j.day@) == b.day_encounters@.map_values(name)
    &&& strings_view(j.night@) == b.night_encounters@.map_values(name)
    &&& strings_view(j.radar@) == b.radar_encounters@.map_values(name)
    &&& j.rate_form0 == b.form_encounter_rates@[0]
    &&& j.rate_form1 == b.form_encounter_rates@[1]
    &&& j.rate_form2 == b.form_encounter_rates@[2]
    &&& j.rate_form3 == b.form_encounter_rates@[3]
    &&& j.rate_form4 == b.form_encounter_rates@[4]
    &&& j.unown_table == b.unown_table_id
    &&& strings_view(j.ruby@) == b.dual_slot_ruby@.map_values(name)
    &&& strings_view(j.sapphire@) == b.dual_slot_sapphire@.map_values(name)
    &&& strings_view(j.emerald@) == b.dual_slot_emerald@.map_values(name)
    &&& strings_view(j.firered@) == b.dual_slot_firered@.map_values(name)
    &&& strings_view(j.leafgreen@) == b.dual_slot_leafgreen@.map_values(name)
    &&& j.surf_rate == b.surf_rate
    &&& water_view(j.surf_encounters@) == b.surf_encounters@.map_values(water)
    &&& j.old_rod_rate == b.old_rod_rate
    &&& water_view(j.old_rod_encounters@) == b.old_rod_encounters@.map_values(water)
    &&& j.good_rod_rate == b.good_rod_rate
    &&& water_view(j.good_rod_encounters@) == b.good_rod_encounters@.map_values(water)
    &&& j.super_rod_rate == b.super_rod_rate
    &&& water_view(j.super_rod_encounters@) == b.super_rod_encounters@.map_values(water)
    &&& if family == GameFamily::HGSS {
        &&& j.music matches Some(m) && strings_view(m@) == b.music_encounters@.map_values(name)
        &&& j.rock_smash_rate == Some(b.rock_smash_rate)
        &&& j.rock_smash_encounters matches Some(r) && water_view(r@) == b.rock_smash_encounters@.map_values(water)
        &&& j.morning matches Some(m) && land_view(m@) == b.morning_encounters@.map_values(land)
    } else {
        &&& j.music is None
        &&& j.rock_smash_rate is None
        &&& j.rock_smash_encounters is None
        &&& j.morning is None
    }
}

impl JsonEncounterFile {
    /// The binary table of this JSON table for `family`: every species name
    /// resolved (a known constant, else a decimal number) into its slots,
    /// missing slots zero. A HeartGold/SoulSilver table needs a rock smash
    /// rate, and takes its music slots from `music`, else from `radar`.
    #[verifier::spinoff_prover]
    #[verifier::rlimit(80)]
    pub fn to_binary(&self, symbols: &SymbolTable, family: GameFamily) -> (r: Result<BinaryEncounterFile, UxieError>)
        requires
            lookups_safe(symbols.sv()),
        ensures
            match r {
                Ok(b) => to_binary_error(*self, symbols.sv(), family) is None && binary_of_json(*self, symbols.sv(), family, b),
                Err(e) => invalid_data_text(e) matches Some(m) && to_binary_error(*self, symbols.sv(), family) == Some(m),
            },
    {
        let is_hgss = match family {
            GameFamily::HGSS => true,
            _ => false,
        };
        if is_hgss && self.rock_smash_rate.is_none() {
            return Err(UxieError::invalid_data(String::from_str("Missing required HGSS encounter field 'rock_smash_rate'")));
        }
        let ghost pieces = read_pieces(*self, family);
        assert(pieces.take(0).flatten_alt() =~= Seq::<Seq<char>>::empty());
        let no_land: Vec<EncounterEntryJson> = Vec::new();
        let no_water: Vec<WaterEncounterEntryJson> = Vec::new();
        let no_names: Vec<String> = Vec::new();
        let morning_src = match &self.morning {
            Some(m) => m,
            None => &no_land,
        };
        let rock_src = match &self.rock_smash_encounters {
            Some(r) => r,
            None => &no_water,
        };
        let music_src = if is_hgss {
            match &self.music {
                Some(m) => m,
                None => &self.radar,
            }
        } else {
            &no_names
        };
        assert(land_view(morning_src@) == opt_land(self.morning));
        assert(water_view(rock_src@) == opt_water(self.rock_smash_encounters));
        assert(strings_view(music_src@) == (if family == GameFamily::HGSS { music_names(*self) } else { Seq::<Seq<char>>::empty() }));
        assert(first_n(Seq::<Seq<char>>::empty(), 4) =~= Seq::<Seq<char>>::empty());

        let morning = match land_slots_exec(symbols, morning_src, 12) {
            Ok(v) => v,
            Err(name) => {
                proof {
                    lemma_piece_step(symbols.sv(), pieces, 0);
                    lemma_piece_fail(symbols.sv(), pieces, 1);
                }
                return Err(species_failure(name));
            },
        };
        proof {
            lemma_piece_step(symbols.sv(), pieces, 0);
        }
        let rock_smash = match water_slots_exec(symbols, rock_src, 2) {
            Ok(v) => v,
            Err(name) => {
                proof {
                    lemma_piece_step(symbols.sv(), pieces, 1);
                    lemma_piece_fail(symbols.sv(), pieces, 2);
                }
                return Err(species_failure(name));
            },
        };
        proof {
            lemma_piece_step(symbols.sv(), pieces, 1);
        }
        let music = match species_slots(symbols, music_src, 4) {
            Ok(v) => v,
            Err(name) => {
                proof {
                    lemma_piece_step(symbols.sv(), pieces, 2);
                    lemma_piece_fail(symbols.sv(), pieces, 3);
                }
                return Err(species_failure(name));
            },
        };
        proof {
            lemma_piece_step(symbols.sv(), pieces, 2);
        }
        let grass = match land_slots_exec(symbols, &self.land_encounters, 12) {
            Ok(v) => v,
            Err(name) => {
                proof {
                    lemma_piece_step(symbols.sv(), pieces, 3);
                    lemma_piece_fail(symbols.sv(), pieces, 4);
                }
                return Err(species_failure(name));
            },
        };
        proof {
            lemma_piece_step(symbols.sv(), pieces, 3);
        }
        let swarm = match species_slots(symbols, &self.swarms, 4) {
            Ok(v) => v,
            Err(name) => {
                proof {
                    lemma_piece_step(symbols.sv(), pieces, 4);
                    lemma_piece_fail(symbols.sv(), pieces, 5);
                }
                return Err(species_failure(name));
            },
        };
        proof {
            lemma_piece_step(symbols.sv(), pieces, 4);
        }
        let day = match species_slots(symbols, &self.day, 12) {
            Ok(v) => v,
            Err(name) => {
                proof {
                    lemma_piece_step(symbols.sv(), pieces, 5);
                    lemma_piece_fail(symbols.sv(), pieces, 6);
                }
                return Err(species_failure(name));
            },
        };
        proof {
            lemma_piece_step(symbols.sv(), pieces, 5);
        }
        let night = match species_slots(symbols, &self.night, 12) {
            Ok(v) => v,
            Err(name) => {
                proof {
                    lemma_piece_step(symbols.sv(), pieces, 6);
                    lemma_piece_fail(symbols.sv(), pieces, 7);
                }
                return Err(species_failure(name));
            },
        };
        proof {
            lemma_piece_step(symbols.sv(), pieces, 6);
        }
        let radar = match species_slots(symbols, &self.radar, 4) {
            Ok(v) => v,
            Err(name) => {
                proof {
                    lemma_piece_step(symbols.sv(), pieces, 7);
                    lemma_piece_fail(symbols.sv(), pieces, 8);
                }
                return Err(species_failure(name));
            },
        };
        proof {
            lemma_piece_step(symbols.sv(), pieces, 7);
        }
        let ruby = match species_slots(symbols, &self.ruby, 2) {
            Ok(v) => v,
            Err(name) => {
                proof {
                    lemma_piece_step(symbols.sv(), pieces, 8);
                    lemma_piece_fail(symbols.sv(), pieces, 9);
                }
                return Err(species_failure(name));
            },
        };
        proof {
            lemma_piece_step(symbols.sv(), pieces, 8);
        }
        let sapphire = match species_slots(symbols, &self.sapphire, 2) {
            Ok(v) => v,
            Err(name) => {
                proof {
                    lemma_piece_step(symbols.sv(), pieces, 9);
                    lemma_piece_fail(symbols.sv(), pieces, 10);
                }
                return Err(species_failure(name));
            },
        };
        proof {
            lemma_piece_step(symbols.sv(), pieces, 9);
        }
        let emerald = match species_slots(symbols, &self.emerald, 2) {
            Ok(v) => v,
            Err(name) => {
                proof {
                    lemma_piece_step(symbols.sv(), pieces, 10);
                    lemma_piece_fail(symbols.sv(), pieces, 11);
                }
                return Err(species_failure(name));
            },
        };
        proof {
            lemma_piece_step(symbols.sv(), pieces, 10);
        }
        let firered = match species_slots(symbols, &self.firered, 2) {
            Ok(v) => v,
            Err(name) => {
                proof {
                    lemma_piece_step(symbols.sv(), pieces, 11);
                    lemma_piece_fail(symbols.sv(), pieces, 12);
                }
                return Err(species_failure(name));
            },
        };
        proof {
            lemma_piece_step(symbols.sv(), pieces, 11);
        }
        let leafgreen = match species_slots(symbols, &self.leafgreen, 2) {
            Ok(v) => v,
            Err(name) => {
                proof {
                    lemma_piece_step(symbols.sv(), pieces, 12);
                    lemma_piece_fail(symbols.sv(), pieces, 13);
                }
                return Err(species_failure(name));
            },
        };
        proof {
            lemma_piece_step(symbols.sv(), pieces, 12);
        }
        let surf = match water_slots_exec(symbols, &self.surf_encounters, 5) {
            Ok(v) => v,
            Err(name) => {
                proof {
                    lemma_piece_step(symbols.sv(), pieces, 13);
                    lemma_piece_fail(symbols.sv(), pieces, 14);
                }
                return Err(species_failure(name));
            },
        };
        proof {
            lemma_piece_step(symbols.sv(), pieces, 13);
        }
        let old_rod = match water_slots_exec(symbols, &self.old_rod_encounters, 5) {
            Ok(v) => v,
            Err(name) => {
                proof {
                    lemma_piece_step(symbols.sv(), pieces, 14);
                    lemma_piece_fail(symbols.sv(), pieces, 15);
                }
                return Err(species_failure(name));
            },
        };
        proof {
            lemma_piece_step(symbols.sv(), pieces, 14);
        }
        let good_rod = match water_slots_exec(symbols, &self.good_rod_encounters, 5) {
            Ok(v) => v,
            Err(name) => {
                proof {
                    lemma_piece_step(symbols.sv(), pieces, 15);
                    lemma_piece_fail(symbols.sv(), pieces, 16);
                }
                return Err(species_failure(name));
            },
        };
        proof {
            lemma_piece_step(symbols.sv(), pieces, 15);
        }
        let super_rod = match water_slots_exec(symbols, &self.super_rod_encounters, 5) {
            Ok(v) => v,
            Err(name) => {
                proof {
                    lemma_piece_step(symbols.sv(), pieces, 16);
                    lemma_piece_fail(symbols.sv(), pieces, 17);
                }
                return Err(species_failure(name));
            },
        };
        proof {
            lemma_piece_step(symbols.sv(), pieces, 16);
        }
        assert(pieces.take(17) =~= pieces);
        let mut rates = [0u32; 5];
        rates.set(0, self.rate_form0);
        rates.set(1, self.rate_form1);
        rates.set(2, self.rate_form2);
        rates.set(3, self.rate_form3);
        rates.set(4, self.rate_form4);
        assert(rates@ =~= seq![self.rate_form0, self.rate_form1, self.rate_form2, self.rate_form3, self.rate_form4]);
        let rock_smash_rate = match self.rock_smash_rate {
            Some(r) => r,
            None => 0,
        };
        Ok(BinaryEncounterFile {
            walking_rate: self.land_rate,
            grass_encounters: land_array12(&grass),
            swarm_encounters: u32_array4(&swarm),
            day_encounters: u32_array12(&day),
            night_encounters: u32_array12(&night),
            radar_encounters: u32_array4(&radar),
            music_encounters: u32_array4(&music),
            form_encounter_rates: rates,
            unown_table_id: self.unown_table,
            dual_slot_ruby: u32_array2(&ruby),
            dual_slot_sapphire: u32_array2(&sapphire),
            dual_slot_emerald: u32_array2(&emerald),
            dual_slot_firered: u32_array2(&firered),
            dual_slot_leafgreen: u32_array2(&leafgreen),
            surf_rate: self.surf_rate,
            surf_encounters: water_array5(&surf),
            old_rod_rate: self.old_rod_rate,
            old_rod_encounters: water_array5(&old_rod),
            good_rod_rate: self.good_rod_rate,
            good_rod_encounters: water_array5(&good_rod),
            super_rod_rate: self.super_rod_rate,
            super_rod_encounters: water_array5(&super_rod),
            rock_smash_rate,
            rock_smash_encounters: water_array2(&rock_smash),
            morning_encounters: land_array12(&morning),
        })
    }

    /// The JSON form of a binary table: species written by their shortest
    /// `SPECIES_*` name, else as numbers; the HeartGold/SoulSilver fields
    /// are filled only for that family.
    pub fn from_binary(bin: &BinaryEncounterFile, symbols: &SymbolTable, family: GameFamily) -> (r: Self)
        ensures
            json_of_binary(*bin, symbols.sv(), family, r),
    {
        let is_hgss = match family {
            GameFamily::HGSS => true,
            _ => false,
        };
        let (music, rock_smash_rate, rock_smash_encounters, morning) = if is_hgss {
            (
                Some(names_of(symbols, &bin.music_encounters)),
                Some(bin.rock_smash_rate),
                Some(water_json_of(symbols, &bin.rock_smash_encounters)),
                Some(land_json_of(symbols, &bin.morning_encounters)),
            )
        } else {
            (None, None, None, None)
        };
        JsonEncounterFile {
            land_rate: bin.walking_rate,
            land_encounters: land_json_of(symbols, &bin.grass_encounters),
            swarms: names_of(symbols, &bin.swarm_encounters),
            day: names_of(symbols, &bin.day_encounters),
            night: names_of(symbols, &bin.night_encounters),
            radar: names_of(symbols, &bin.radar_encounters),
            rate_form0: bin.form_encounter_rates[0],
            rate_form1: bin.form_encounter_rates[1],
            rate_form2: bin.form_encounter_rates[2],
            rate_form3: bin.form_encounter_rates[3],
            rate_form4: bin.form_encounter_rates[4],
            unown_table: bin.unown_table_id,
            ruby: names_of(symbols, &bin.dual_slot_ruby),
            sapphire: names_of(symbols, &bin.dual_slot_sapphire),
            emerald: names_of(symbols, &bin.dual_slot_emerald),
            firered: names_of(symbols, &bin.dual_slot_firered),
            leafgreen: names_of(symbols, &bin.dual_slot_leafgreen),
            surf_rate: bin.surf_rate,
            surf_encounters: water_json_of(symbols, &bin.surf_encounters),
            old_rod_rate: bin.old_rod_rate,
            old_rod_encounters: water_json_of(symbols, &bin.old_rod_encounters),
            good_rod_rate: bin.good_rod_rate,
            good_rod_encounters: water_json_of(symbols, &bin.good_rod_encounters),
            super_rod_rate: bin.super_rod_rate,
            super_rod_encounters: water_json_of(symbols, &bin.super_rod_encounters),
            music,
            rock_smash_rate,
            rock_smash_encounters,
            morning,
        }
    }
}


// ----- writing the JSON form back -----

/// A species id whose name resolves back to it.
pub open spec fn id_round_trips(syms: SymView, id: u32) -> bool {
    species_id(syms, species_name(syms, id)) == Some(id)
}

pub open spec fn ids_round_trip(syms: SymView, s: Seq<u32>) -> bool {
    forall|i: int| 0 <= i < s.len() ==> id_round_trips(syms, #[trigger] s[i])
}

pub open spec fn land_round_trips(syms: SymView, s: Seq<EncounterEntry>) -> bool {
    forall|i: int| 0 <= i < s.len() ==> id_round_trips(syms, (#[trigger] s[i]).species)
}

pub open spec fn water_round_trips(syms: SymView, s: Seq<WaterEncounterEntry>) -> bool {
    forall|i: int| 0 <= i < s.len() ==> id_round_trips(syms, (#[trigger] s[i]).species)
}

/// Every species of a binary table that its JSON form writes has a name
/// that resolves back to it.
pub open spec fn table_round_trips(b: BinaryEncounterFile, syms: SymView, family: GameFamily) -> bool {
    &&& land_round_trips(syms, b.grass_encounters@)
    &&& ids_round_trip(syms, b.swarm_encounters@)
    &&& ids_round_trip(syms, b.day_encounters@)
    &&& ids_round_trip(syms, b.night_encounters@)
    &&& ids_round_trip(syms, b.radar_encounters@)
    &&& ids_round_trip(syms, b.dual_slot_ruby@)
    &&& ids_round_trip(syms, b.dual_slot_sapphire@)
    &&& ids_round_trip(syms, b.dual_slot_emerald@)
    &&& ids_round_trip(syms, b.dual_slot_firered@)
    &&& ids_round_trip(syms, b.dual_slot_leafgreen@)
    &&& water_round_trips(syms, b.surf_encounters@)
    &&& water_round_trips(syms, b.old_rod_encounters@)
    &&& water_round_trips(syms, b.good_rod_encounters@)
    &&& water_round_trips(syms, b.super_rod_encounters@)
    &&& family == GameFamily::HGSS ==> {
        &&& ids_round_trip(syms, b.music_encounters@)
        &&& water_round_trips(syms, b.rock_smash_encounters@)
        &&& land_round_trips(syms, b.morning_encounters@)
    }
}

/// Outside HeartGold/SoulSilver the fields of that family are zero.
pub open spec fn hgss_fields_zero(b: BinaryEncounterFile) -> bool {
    &&& b.music_encounters@ == id_slots(empty_view(), Seq::empty(), 4)
    &&& b.rock_smash_rate == 0
    &&& b.rock_smash_encounters@ == water_slots(empty_view(), Seq::empty(), 2)
    &&& b.morning_encounters@ == land_slots(empty_view(), Seq::empty(), 12)
}

proof fn lemma_none_if_all_resolve(syms: SymView, s: Seq<Seq<char>>)
    requires
        forall|i: int| 0 <= i < s.len() ==> species_id(syms, #[trigger] s[i]) is Some,
    ensures
        first_unresolved(syms, s) is None,
    decreases s.len(),
{
    if s.len() > 0 {
        assert forall|i: int| 0 <= i < s.drop_last().len() implies species_id(syms, #[trigger] s.drop_last()[i]) is Some by {
            assert(s.drop_last()[i] == s[i]);
        }
        lemma_none_if_all_resolve(syms, s.drop_last());
        assert(species_id(syms, s[s.len() - 1]) is Some);
    }
}

proof fn lemma_ids_back(syms: SymView, s: Seq<u32>)
    requires
        ids_round_trip(syms, s),
    ensures
        id_slots(syms, s.map_values(|id: u32| species_name(syms, id)), s.len()) == s,
        first_unresolved(syms, first_n(s.map_values(|id: u32| species_name(syms, id)), s.len())) is None,
{
    let names = s.map_values(|id: u32| species_name(syms, id));
    assert(first_n(names, s.len()) =~= names);
    assert forall|i: int| 0 <= i < names.len() implies species_id(syms, #[trigger] names[i]) is Some by {
        assert(id_round_trips(syms, s[i]));
    }
    lemma_none_if_all_resolve(syms, names);
    assert forall|i: int| 0 <= i < s.len() implies id_slots(syms, names, s.len())[i] == s[i] by {
        assert(id_round_trips(syms, s[i]));
    }
    assert(id_slots(syms, names, s.len()) =~= s);
}

proof fn lemma_land_back(syms: SymView, s: Seq<EncounterEntry>)
    requires
        land_round_trips(syms, s),
    ensures
        land_slots(syms, s.map_values(|e: EncounterEntry| (e.level, species_name(syms, e.species))), s.len()) == s,
        first_unresolved(syms, first_n(land_names(s.map_values(|e: EncounterEntry| (e.level, species_name(syms, e.species)))), s.len())) is None,
{
    let lv = s.map_values(|e: EncounterEntry| (e.level, species_name(syms, e.species)));
    let names = land_names(lv);
    assert(first_n(names, s.len()) =~= names);
    assert forall|i: int| 0 <= i < names.len() implies species_id(syms, #[trigger] names[i]) is Some by {
        assert(id_round_trips(syms, s[i].species));
    }
    lemma_none_if_all_resolve(syms, names);
    assert forall|i: int| 0 <= i < s.len() implies land_slots(syms, lv, s.len())[i] == s[i] by {
        assert(id_round_trips(syms, s[i].species));
    }
    assert(land_slots(syms, lv, s.len()) =~= s);
}

proof fn lemma_water_back(syms: SymView, s: Seq<WaterEncounterEntry>)
    requires
        water_round_trips(syms, s),
    ensures
        water_slots(syms, s.map_values(|e: WaterEncounterEntry| (e.min_level, e.max_level, species_name(syms, e.species))), s.len()) == s,
        first_unresolved(syms, first_n(water_names(s.map_values(|e: WaterEncounterEntry| (e.min_level, e.max_level, species_name(syms, e.species)))), s.len())) is None,
{
    let lv = s.map_values(|e: WaterEncounterEntry| (e.min_level, e.max_level, species_name(syms, e.species)));
    let names = water_names(lv);
    assert(first_n(names, s.len()) =~= names);
    assert forall|i: int| 0 <= i < names.len() implies species_id(syms, #[trigger] names[i]) is Some by {
        assert(id_round_trips(syms, s[i].species));
    }
    lemma_none_if_all_resolve(syms, names);
    assert forall|i: int| 0 <= i < s.len() implies water_slots(syms, lv, s.len())[i] == s[i] by {
        assert(id_round_trips(syms, s[i].species));
    }
    assert(water_slots(syms, lv, s.len()) =~= s);
}

proof fn lemma_pieces_none(syms: SymView, pieces: Seq<Seq<Seq<char>>>)
    requires
        forall|k: int| 0 <= k < pieces.len() ==> first_unresolved(syms, #[trigger] pieces[k]) is None,
    ensures
        first_unresolved(syms, pieces.flatten_alt()) is None,
    decreases pieces.len(),
{
    if pieces.len() > 0 {
        assert forall|k: int| 0 <= k < pieces.drop_last().len() implies first_unresolved(syms, #[trigger] pieces.drop_last()[k]) is None by {
            assert(pieces.drop_last()[k] == pieces[k]);
        }
        lemma_pieces_none(syms, pieces.drop_last());
        lemma_first_unresolved_concat(syms, pieces.drop_last().flatten_alt(), pieces.last());
    }
}

/// Writing the JSON form of a binary table back gives the same table: the
/// JSON form can be written without error, and what it is written as is
/// the table itself. This holds when every species the JSON form names has
/// a name that resolves back to it and, outside HeartGold/SoulSilver, the
/// fields of that family are zero (the JSON form leaves them out).
#[verifier::spinoff_prover]
#[verifier::rlimit(100)]
pub proof fn lemma_encounter_json_round_trip(
    b: BinaryEncounterFile,
    syms: SymView,
    family: GameFamily,
    j: JsonEncounterFile,
    b2: BinaryEncounterFile,
)
    requires
        json_of_binary(b, syms, family, j),
        table_round_trips(b, syms, family),
        family != GameFamily::HGSS ==> hgss_fields_zero(b),
    ensures
        to_binary_error(j, syms, family) is None,
        binary_of_json(j, syms, family, b2) ==> b2 == b,
{
    let name = |id: u32| species_name(syms, id);
    let land = |e: EncounterEntry| (e.level, species_name(syms, e.species));
    let water = |e: WaterEncounterEntry| (e.min_level, e.max_level, species_name(syms, e.species));
    lemma_land_back(syms, b.grass_encounters@);
    lemma_ids_back(syms, b.swarm_encounters@);
    lemma_ids_back(syms, b.day_encounters@);
    lemma_ids_back(syms, b.night_encounters@);
    lemma_ids_back(syms, b.radar_encounters@);
    lemma_ids_back(syms, b.dual_slot_ruby@);
    lemma_ids_back(syms, b.dual_slot_sapphire@);
    lemma_ids_back(syms, b.dual_slot_emerald@);
    lemma_ids_back(syms, b.dual_slot_firered@);
    lemma_ids_back(syms, b.dual_slot_leafgreen@);
    lemma_water_back(syms, b.surf_encounters@);
    lemma_water_back(syms, b.old_rod_encounters@);
    lemma_water_back(syms, b.good_rod_encounters@);
    lemma_water_back(syms, b.super_rod_encounters@);
    if family == GameFamily::HGSS {
        lemma_ids_back(syms, b.music_encounters@);
        lemma_water_back(syms, b.rock_smash_encounters@);
        lemma_land_back(syms, b.morning_encounters@);
    } else {
        assert(first_n(Seq::<Seq<char>>::empty(), 12) =~= Seq::<Seq<char>>::empty());
        assert(first_n(Seq::<Seq<char>>::empty(), 2) =~= Seq::<Seq<char>>::empty());
        assert(land_names(Seq::<(u8, Seq<char>)>::empty()) =~= Seq::<Seq<char>>::empty());
        assert(water_names(Seq::<(u8, u8, Seq<char>)>::empty()) =~= Seq::<Seq<char>>::empty());
        assert(id_slots(syms, Seq::empty(), 4) =~= id_slots(empty_view(), Seq::empty(), 4));
        assert(water_slots(syms, Seq::empty(), 2) =~= water_slots(empty_view(), Seq::empty(), 2));
        assert(land_slots(syms, Seq::empty(), 12) =~= land_slots(empty_view(), Seq::empty(), 12));
    }
    let pieces = read_pieces(j, family);
    assert forall|k: int| 0 <= k < pieces.len() implies first_unresolved(syms, #[trigger] pieces[k]) is None by {
        if k == 2 && family != GameFamily::HGSS {
        }
    }
    lemma_pieces_none(syms, pieces);
    if binary_of_json(j, syms, family, b2) {
        assert(b2.grass_encounters =~= b.grass_encounters);
        assert(b2.swarm_encounters =~= b.swarm_encounters);
        assert(b2.day_encounters =~= b.day_encounters);
        assert(b2.night_encounters =~= b.night_encounters);
        assert(b2.radar_encounters =~= b.radar_encounters);
        assert(b2.music_encounters =~= b.music_encounters);
        assert(b2.form_encounter_rates =~= b.form_encounter_rates);
        assert(b2.dual_slot_ruby =~= b.dual_slot_ruby);
        assert(b2.dual_slot_sapphire =~= b.dual_slot_sapphire);
        assert(b2.dual_slot_emerald =~= b.dual_slot_emerald);
        assert(b2.dual_slot_firered =~= b.dual_slot_firered);
        assert(b2.dual_slot_leafgreen =~= b.dual_slot_leafgreen);
        assert(b2.surf_encounters =~= b.surf_encounters);
        assert(b2.old_rod_encounters =~= b.old_rod_encounters);
        assert(b2.good_rod_encounters =~= b.good_rod_encounters);
        assert(b2.super_rod_encounters =~= b.super_rod_encounters);
        assert(b2.rock_smash_encounters =~= b.rock_smash_encounters);
        assert(b2.morning_encounters =~= b.morning_encounters);
    }
}

proof fn land_json_pins(js: Seq<EncounterEntryJson>, bs: Seq<EncounterEntry>, syms: SymView)
    requires
        land_view(js) == bs.map_values(|e: EncounterEntry| (e.level, species_name(syms, e.species))),
    ensures
        js.len() == bs.len(),
        forall|k: int| 0 <= k < bs.len() ==> #[trigger] js[k].level == bs[k].level && js[k].species@ == species_name(syms,
            bs[k].species),
{
    assert(land_view(js).len() == js.len());
    assert forall|k: int| 0 <= k < bs.len() implies #[trigger] js[k].level == bs[k].level && js[k].species@ == species_name(
        syms,
        bs[k].species,
    ) by {
        assert(land_view(js)[k] == (js[k].level, js[k].species@));
    }
}

proof fn water_json_pins(js: Seq<WaterEncounterEntryJson>, bs: Seq<WaterEncounterEntry>, syms: SymView)
    requires
        water_view(js) == bs.map_values(|e: WaterEncounterEntry| (e.min_level, e.max_level, species_name(syms, e.species))),
    ensures
        js.len() == bs.len(),
        forall|k: int| 0 <= k < bs.len() ==> #[trigger] js[k].level_min == bs[k].min_level && js[k].level_max == bs[k].max_level
            && js[k].species@ == species_name(syms, bs[k].species),
{
    assert(water_view(js).len() == js.len());
    assert forall|k: int| 0 <= k < bs.len() implies #[trigger] js[k].level_min == bs[k].min_level && js[k].level_max
        == bs[k].max_level && js[k].species@ == species_name(syms, bs[k].species) by {
        assert(water_view(js)[k] == (js[k].level_min, js[k].level_max, js[k].species@));
    }
}

/// Law: the JSON form of a binary table gives its five surf slots, in
/// order, the levels and species of the binary surf slots: `level_min` the
/// minimum level, `level_max` the maximum, the species by name.
pub proof fn json_surf_encounters_of_binary(b: BinaryEncounterFile, syms: SymView, family: GameFamily, j: JsonEncounterFile)
    requires
        json_of_binary(b, syms, family, j),
    ensures
        j.surf_encounters@.len() == 5,
        (forall|k: int| 0 <= k < 5 ==> #[trigger] j.surf_encounters@[k].level_min == b.surf_encounters@[k].min_level
            && j.surf_encounters@[k].level_max == b.surf_encounters@[k].max_level && j.surf_encounters@[k].species@ == species_name(syms, b.surf_encounters@[k].species)),
{
    broadcast use vstd::array::group_array_axioms;
    assert(b.surf_encounters@.len() == 5);
    water_json_pins(j.surf_encounters@, b.surf_encounters@, syms);
}

/// Law: the JSON form of a binary table gives its five old rod slots, in
/// order, the levels and species of the binary old rod slots: `level_min` the
/// minimum level, `level_max` the maximum, the species by name.
pub proof fn json_old_rod_encounters_of_binary(b: BinaryEncounterFile, syms: SymView, family: GameFamily, j: JsonEncounterFile)
    requires
        json_of_binary(b, syms, family, j),
    ensures
        j.old_rod_encounters@.len() == 5,
        (forall|k: int| 0 <= k < 5 ==> #[trigger] j.old_rod_encounters@[k].level_min == b.old_rod_encounters@[k].min_level
            && j.old_rod_encounters@[k].level_max == b.old_rod_encounters@[k].max_level && j.old_rod_encounters@[k].species@ == species_name(syms, b.old_rod_encounters@[k].species)),
{
    broadcast use vstd::array::group_array_axioms;
    assert(b.old_rod_encounters@.len() == 5);
    water_json_pins(j.old_rod_encounters@, b.old_rod_encounters@, syms);
}

/// Law: the JSON form of a binary table gives its five good rod slots, in
/// order, the levels and species of the binary good rod slots: `level_min` the
/// minimum level, `level_max` the maximum, the species by name.
pub proof fn json_good_rod_encounters_of_binary(b: BinaryEncounterFile, syms: SymView, family: GameFamily, j: JsonEncounterFile)
    requires
        json_of_binary(b, syms, family, j),
    ensures
        j.good_rod_encounters@.len() == 5,
        (forall|k: int| 0 <= k < 5 ==> #[trigger] j.good_rod_encounters@[k].level_min == b.good_rod_encounters@[k].min_level
            && j.good_rod_encounters@[k].level_max == b.good_rod_encounters@[k].max_level && j.good_rod_encounters@[k].species@ == species_name(syms, b.good_rod_encounters@[k].species)),
{
    broadcast use vstd::array::group_array_axioms;
    assert(b.good_rod_encounters@.len() == 5);
    water_json_pins(j.good_rod_encounters@, b.good_rod_encounters@, syms);
}

/// Law: the JSON form of a binary table gives its five super rod slots, in
/// order, the levels and species of the binary super rod slots: `level_min` the
/// minimum level, `level_max` the maximum, the species by name.
pub proof fn json_super_rod_encounters_of_binary(b: BinaryEncounterFile, syms: SymView, family: GameFamily, j: JsonEncounterFile)
    requires
        json_of_binary(b, syms, family, j),
    ensures
        j.super_rod_encounters@.len() == 5,
        (forall|k: int| 0 <= k < 5 ==> #[trigger] j.super_rod_encounters@[k].level_min == b.super_rod_encounters@[k].min_level
            && j.super_rod_encounters@[k].level_max == b.super_rod_encounters@[k].max_level && j.super_rod_encounters@[k].species@ == species_name(syms, b.super_rod_encounters@[k].species)),
{
    broadcast use vstd::array::group_array_axioms;
    assert(b.super_rod_encounters@.len() == 5);
    water_json_pins(j.super_rod_encounters@, b.super_rod_encounters@, syms);
}

/// Law: the JSON form of a binary table keeps the land, surf and rod rates,
/// and gives its twelve land slots, in order, the level and species of the
/// binary land slots (the species by name).
pub proof fn json_land_of_binary(b: BinaryEncounterFile, syms: SymView, family: GameFamily, j: JsonEncounterFile)
    requires
        json_of_binary(b, syms, family, j),
    ensures
        j.land_rate == b.walking_rate,
        j.surf_rate == b.surf_rate,
        j.old_rod_rate == b.old_rod_rate,
        j.good_rod_rate == b.good_rod_rate,
        j.super_rod_rate == b.super_rod_rate,
        j.land_encounters@.len() == 12,
        (forall|k: int| 0 <= k < 12 ==> #[trigger] j.land_encounters@[k].level == b.grass_encounters@[k].level
            && j.land_encounters@[k].species@ == species_name(syms, b.grass_encounters@[k].species)),
{
    broadcast use vstd::array::group_array_axioms;
    assert(b.grass_encounters@.len() == 12);
    land_json_pins(j.land_encounters@, b.grass_encounters@, syms);
}

/// Law: the binary table of a JSON table keeps the rates, and fills each
/// land and water slot from the JSON slot at the same place in the list of
/// the same name (a water slot's minimum level from `level_min`, maximum
/// from `level_max`, the species by name), the slots past the JSON list
/// zero.
pub proof fn binary_slots_of_json(j: JsonEncounterFile, syms: SymView, family: GameFamily, b: BinaryEncounterFile)
    requires
        binary_of_json(j, syms, family, b),
    ensures
        b.walking_rate == j.land_rate,
        b.surf_rate == j.surf_rate,
        b.old_rod_rate == j.old_rod_rate,
        b.good_rod_rate == j.good_rod_rate,
        b.super_rod_rate == j.super_rod_rate,
        (forall|k: int| 0 <= k < 12 ==> #[trigger] b.grass_encounters@[k] == if k < j.land_encounters@.len() {
            EncounterEntry { level: j.land_encounters@[k].level, species: id_of(syms, j.land_encounters@[k].species@) }
        } else {
            EncounterEntry { level: 0, species: 0 }
        }),
        (forall|k: int| 0 <= k < 5 ==> #[trigger] b.surf_encounters@[k] == if k < j.surf_encounters@.len() {
            WaterEncounterEntry { min_level: j.surf_encounters@[k].level_min, max_level: j.surf_encounters@[k].level_max, species: id_of(syms, j.surf_encounters@[k].species@) }
        } else {
            WaterEncounterEntry { min_level: 0, max_level: 0, species: 0 }
        }),
        (forall|k: int| 0 <= k < 5 ==> #[trigger] b.old_rod_encounters@[k] == if k < j.old_rod_encounters@.len() {
            WaterEncounterEntry { min_level: j.old_rod_encounters@[k].level_min, max_level: j.old_rod_encounters@[k].level_max, species: id_of(syms, j.old_rod_encounters@[k].species@) }
        } else {
            WaterEncounterEntry { min_level: 0, max_level: 0, species: 0 }
        }),
        (forall|k: int| 0 <= k < 5 ==> #[trigger] b.good_rod_encounters@[k] == if k < j.good_rod_encounters@.len() {
            WaterEncounterEntry { min_level: j.good_rod_encounters@[k].level_min, max_level: j.good_rod_encounters@[k].level_max, species: id_of(syms, j.good_rod_encounters@[k].species@) }
        } else {
            WaterEncounterEntry { min_level: 0, max_level: 0, species: 0 }
        }),
        (forall|k: int| 0 <= k < 5 ==> #[trigger] b.super_rod_encounters@[k] == if k < j.super_rod_encounters@.len() {
            WaterEncounterEntry { min_level: j.super_rod_encounters@[k].level_min, max_level: j.super_rod_encounters@[k].level_max, species: id_of(syms, j.super_rod_encounters@[k].species@) }
        } else {
            WaterEncounterEntry { min_level: 0, max_level: 0, species: 0 }
        }),
{
    assert forall|k: int| 0 <= k < 12 implies #[trigger] b.grass_encounters@[k] == if k < j.land_encounters@.len() {
        EncounterEntry { level: j.land_encounters@[k].level, species: id_of(syms, j.land_encounters@[k].species@) }
    } else {
        EncounterEntry { level: 0, species: 0 }
    } by {
        if k < j.land_encounters@.len() {
            assert(land_view(j.land_encounters@)[k] == (j.land_encounters@[k].level, j.land_encounters@[k].species@));
        }
    }
    assert forall|k: int| 0 <= k < 5 implies #[trigger] b.surf_encounters@[k] == if k < j.surf_encounters@.len() {
        WaterEncounterEntry { min_level: j.surf_encounters@[k].level_min, max_level: j.surf_encounters@[k].level_max, species: id_of(syms, j.surf_encounters@[k].species@) }
    } else {
        WaterEncounterEntry { min_level: 0, max_level: 0, species: 0 }
    } by {
        if k < j.surf_encounters@.len() {
            assert(water_view(j.surf_encounters@)[k] == (j.surf_encounters@[k].level_min, j.surf_encounters@[k].level_max, j.surf_encounters@[k].species@));
        }
    }
    assert forall|k: int| 0 <= k < 5 implies #[trigger] b.old_rod_encounters@[k] == if k < j.old_rod_encounters@.len() {
        WaterEncounterEntry { min_level: j.old_rod_encounters@[k].level_min, max_level: j.old_rod_encounters@[k].level_max, species: id_of(syms, j.old_rod_encounters@[k].species@) }
    } else {
        WaterEncounterEntry { min_level: 0, max_level: 0, species: 0 }
    } by {
        if k < j.old_rod_encounters@.len() {
            assert(water_view(j.old_rod_encounters@)[k] == (j.old_rod_encounters@[k].level_min, j.old_rod_encounters@[k].level_max, j.old_rod_encounters@[k].species@));
        }
    }
    assert forall|k: int| 0 <= k < 5 implies #[trigger] b.good_rod_encounters@[k] == if k < j.good_rod_encounters@.len() {
        WaterEncounterEntry { min_level: j.good_rod_encounters@[k].level_min, max_level: j.good_rod_encounters@[k].level_max, species: id_of(syms, j.good_rod_encounters@[k].species@) }
    } else {
        WaterEncounterEntry { min_level: 0, max_level: 0, species: 0 }
    } by {
        if k < j.good_rod_encounters@.len() {
            assert(water_view(j.good_rod_encounters@)[k] == (j.good_rod_encounters@[k].level_min, j.good_rod_encounters@[k].level_max, j.good_rod_encounters@[k].species@));
        }
    }
    assert forall|k: int| 0 <= k < 5 implies #[trigger] b.super_rod_encounters@[k] == if k < j.super_rod_encounters@.len() {
        WaterEncounterEntry { min_level: j.super_rod_encounters@[k].level_min, max_level: j.super_rod_encounters@[k].level_max, species: id_of(syms, j.super_rod_encounters@[k].species@) }
    } else {
        WaterEncounterEntry { min_level: 0, max_level: 0, species: 0 }
    } by {
        if k < j.super_rod_encounters@.len() {
            assert(water_view(j.super_rod_encounters@)[k] == (j.super_rod_encounters@[k].level_min, j.super_rod_encounters@[k].level_max, j.super_rod_encounters@[k].species@));
        }
    }
}

} // verus!
