//! Event files in the Platinum decomp's JSON shape, resolved against a
//! symbol table.
//!
//! Field values may be numbers, booleans or strings; a string is a constant
//! name or an expression over constants. Object heights are stored in the
//! binary file scaled by `0x10000`.
use vstd::prelude::*;
use crate::c_parser::symbol_table::{SymbolTable, SymView, lookups_safe, lemma_lookups_safe, ConstantFamily, evaluated, resolved, starts_with,
    shortest_name, names_consistent, lemma_lookup_consistent, lemma_shortest_name_inserted};
use crate::error::{UxieError, invalid_data_text};
use crate::event_file::{BgEvent, ObjectEvent, WarpEvent, CoordEvent, EventFile};
use crate::event_file::values::{JsonValue, field_error_text, unknown_expr, out_of_range,
    value_safe, opt_safe, text_result, field_error, out_of_range_error, evaluate_field,
    json_num, json_text, number_value};
use crate::results::{map_results, lemma_map_results_step, lemma_map_results_stops,
    lemma_map_results_all_ok};
use crate::text::{chars_of, dec, dec_int, has_prefix_at, i64_to_string, prefix_at, push_dec, push_str, trim,
    trimmed};

verus! {

/// Background event as the JSON gives it.
#[derive(Debug, Clone, PartialEq, Eq)]
pub struct BgEventJson {
    pub script: u16,
    pub event_type: JsonValue,
    pub x: i32,
    pub z: i32,
    pub y: i32,
    pub player_facing_dir: Option<JsonValue>,
}

/// Object event (NPC, item ball, ...) as the JSON gives it.
#[derive(Debug, Clone, PartialEq, Eq)]
pub struct ObjectEventJson {
    pub id: String,
    pub graphics_id: JsonValue,
    pub movement_type: JsonValue,
    pub trainer_type: JsonValue,
    pub hidden_flag: Option<JsonValue>,
    pub script: JsonValue,
    pub initial_dir: i16,
    pub data: Vec<u16>,
    pub movement_range_x: i16,
    pub movement_range_z: i16,
    pub x: u16,
    pub z: u16,
    pub y: i32,
    pub clone_id: Option<u16>,
    pub double_battle_id: Option<u8>,
}

/// Warp event as the JSON gives it.
#[derive(Debug, Clone, PartialEq, Eq)]
pub struct WarpEventJson {
    pub x: u16,
    pub z: u16,
    pub dest_header_id: JsonValue,
    pub dest_warp_id: u16,
}

/// Coordinate trigger as the JSON gives it.
#[derive(Debug, Clone, PartialEq, Eq)]
pub struct CoordEventJson {
    pub script: u16,
    pub x: i16,
    pub z: i16,
    pub width: u16,
    pub length: u16,
    pub y: u16,
    pub value: JsonValue,
    pub var: Option<JsonValue>,
}

/// A whole event file in the Platinum JSON shape.
#[derive(Debug, Clone, PartialEq, Eq)]
pub struct PlatinumEventJson {
    pub bg_events: Vec<BgEventJson>,
    pub object_events: Vec<ObjectEventJson>,
    pub warp_events: Vec<WarpEventJson>,
    pub coord_events: Vec<CoordEventJson>,
}

/// The integer a field value stands for.
pub open spec fn pt_i64(syms: SymView, v: JsonValue, field: Seq<char>) -> Result<i64, Seq<char>> {
    match v {
        JsonValue::Number(Some(n), _) => Ok(n),
        JsonValue::Number(None, t) => Err(field_error_text(field, "invalid number "@ + t@)),
        JsonValue::Bool(b) => Ok(if b { 1i64 } else { 0i64 }),
        JsonValue::Text(s) => match evaluated(syms, trim(s@)) {
            Some(x) => Ok(x),
            None => Err(unknown_expr(field, trim(s@))),
        },
        JsonValue::Other(t) => Err(field_error_text(field, "expected number, string, or boolean, got "@ + t@)),
    }
}

/// The `u16` a field value stands for.
pub open spec fn pt_u16(syms: SymView, v: JsonValue, field: Seq<char>) -> Result<u16, Seq<char>> {
    match pt_i64(syms, v, field) {
        Ok(x) => if 0 <= x <= 0xffff { Ok(x as u16) } else { Err(out_of_range(field, x, "u16"@)) },
        Err(e) => Err(e),
    }
}

/// An optional field, 0 where it is absent.
pub open spec fn pt_opt_u16(syms: SymView, o: Option<JsonValue>, field: Seq<char>) -> Result<u16, Seq<char>> {
    match o {
        Some(v) => pt_u16(syms, v, field),
        None => Ok(0u16),
    }
}

/// The script number of a string that names no trainer.
pub open spec fn pt_script_expr(syms: SymView, name: Seq<char>) -> Result<u16, Seq<char>> {
    let e = trim(name);
    match evaluated(syms, e) {
        Some(raw) => if 0 <= raw <= 0xffff {
            Ok(raw as u16)
        } else {
            Err(field_error_text("script"@, "`"@ + e + "` = "@ + dec_int(raw as int) + " out of range for u16"@))
        },
        None => Err(unknown_expr("script"@, e)),
    }
}

/// The script of an object: a `TRAINER_` constant becomes the trainer's
/// script (base 5000 for the second trainer of a double battle, else 3000,
/// plus the trainer id less one); other values are taken as they are.
pub open spec fn pt_script(syms: SymView, v: JsonValue, double_battle_id: Option<u8>) -> Result<u16, Seq<char>> {
    match v {
        JsonValue::Text(name) => {
            if starts_with(name@, "TRAINER_"@) && resolved(syms, name@) is Some {
                let t = resolved(syms, name@)->0;
                let base: int = if double_battle_id == Some(2u8) { 5000 } else { 3000 };
                if !(0 <= t <= 0xffff) {
                    Err(field_error_text("script"@, "trainer constant "@ + name@ + " out of range"@))
                } else if t == 0 || base + t - 1 > 0xffff {
                    Err(field_error_text("script"@, "trainer script overflow for "@ + name@))
                } else {
                    Ok((base + t - 1) as u16)
                }
            } else {
                pt_script_expr(syms, name@)
            }
        },
        _ => match pt_i64(syms, v, "script"@) {
            Ok(raw) => if 0 <= raw <= 0xffff {
                Ok(raw as u16)
            } else {
                Err(field_error_text("script"@, "script "@ + dec_int(raw as int) + " out of range for u16"@))
            },
            Err(e) => Err(e),
        },
    }
}

/// The binary height of an object: the JSON height times `0x10000`.
pub open spec fn pt_binary_y(y: i32) -> Result<i32, Seq<char>> {
    let scaled = y * 0x10000;
    if i32::MIN <= scaled <= i32::MAX {
        Ok(scaled as i32)
    } else {
        Err("object y "@ + dec_int(y as int) + " overflows when scaled for Platinum binary"@)
    }
}

/// Slot `i` of an object's data: the listed value, else 0.
pub open spec fn data_slot(d: Seq<u16>, i: int) -> u16 {
    if i < d.len() { d[i] } else { 0u16 }
}

pub open spec fn pt_bg(syms: SymView, b: BgEventJson) -> Result<BgEvent, Seq<char>> {
    match pt_u16(syms, b.event_type, "type"@) {
        Err(e) => Err(e),
        Ok(t) => match pt_opt_u16(syms, b.player_facing_dir, "player_facing_dir"@) {
            Err(e) => Err(e),
            Ok(d) => Ok(BgEvent { script: b.script, event_type: t, x: b.x, z: b.z, y: b.y, player_facing_dir: d }),
        },
    }
}

/// The object event at `index` in the list: its data must fit three slots
/// and, where it names no clone id, its index must fit a `u16`.
pub open spec fn pt_object(syms: SymView, o: ObjectEventJson, index: int) -> Result<ObjectEvent, Seq<char>> {
    if o.data@.len() > 3 {
        Err(field_error_text("data"@, "object data has "@ + dec(o.data@.len()) + " entries, maximum is 3"@))
    } else if index > 0xffff {
        Err(field_error_text("clone_id"@, "object index "@ + dec(index as nat) + " exceeds u16"@))
    } else {
        match pt_u16(syms, o.graphics_id, "graphics_id"@) { Err(e) => Err(e), Ok(g) =>
        match pt_u16(syms, o.movement_type, "movement_type"@) { Err(e) => Err(e), Ok(m) =>
        match pt_u16(syms, o.trainer_type, "trainer_type"@) { Err(e) => Err(e), Ok(t) =>
        match pt_opt_u16(syms, o.hidden_flag, "hidden_flag"@) { Err(e) => Err(e), Ok(h) =>
        match pt_script(syms, o.script, o.double_battle_id) { Err(e) => Err(e), Ok(sc) =>
        match pt_binary_y(o.y) { Err(e) => Err(e), Ok(y) =>
            Ok(ObjectEvent {
                local_id: match o.clone_id { Some(c) => c, None => index as u16 },
                graphics_id: g,
                movement_type: m,
                trainer_type: t,
                hidden_flag: h,
                script: sc,
                dir: o.initial_dir,
                data: [data_slot(o.data@, 0), data_slot(o.data@, 1), data_slot(o.data@, 2)],
                movement_range_x: o.movement_range_x,
                movement_range_z: o.movement_range_z,
                x: o.x,
                z: o.z,
                y,
            })
        }}}}}}
    }
}

pub open spec fn pt_warp(syms: SymView, w: WarpEventJson) -> Result<WarpEvent, Seq<char>> {
    match pt_u16(syms, w.dest_header_id, "dest_header_id"@) {
        Err(e) => Err(e),
        Ok(d) => Ok(WarpEvent { x: w.x, z: w.z, dest_header_id: d, dest_warp_id: w.dest_warp_id, height: 0 }),
    }
}

pub open spec fn pt_coord(syms: SymView, c: CoordEventJson) -> Result<CoordEvent, Seq<char>> {
    match pt_u16(syms, c.value, "value"@) {
        Err(e) => Err(e),
        Ok(v) => match pt_opt_u16(syms, c.var, "var"@) {
            Err(e) => Err(e),
            Ok(var) => Ok(CoordEvent {
                script: c.script, x: c.x, z: c.z, width: c.width, length: c.length, y: c.y,
                value: v, var,
            }),
        },
    }
}

pub open spec fn bg_step(syms: SymView) -> spec_fn(BgEventJson, int) -> Result<BgEvent, Seq<char>> {
    |b: BgEventJson, i: int| pt_bg(syms, b)
}

pub open spec fn object_step(syms: SymView) -> spec_fn(ObjectEventJson, int) -> Result<ObjectEvent, Seq<char>> {
    |o: ObjectEventJson, i: int| pt_object(syms, o, i)
}

pub open spec fn warp_step(syms: SymView) -> spec_fn(WarpEventJson, int) -> Result<WarpEvent, Seq<char>> {
    |w: WarpEventJson, i: int| pt_warp(syms, w)
}

pub open spec fn coord_step(syms: SymView) -> spec_fn(CoordEventJson, int) -> Result<CoordEvent, Seq<char>> {
    |c: CoordEventJson, i: int| pt_coord(syms, c)
}

/// The four event lists of a Platinum JSON file, resolved in file order:
/// background events, objects, warps, then coordinate triggers.
pub open spec fn platinum_events(syms: SymView, j: PlatinumEventJson)
    -> Result<(Seq<BgEvent>, Seq<ObjectEvent>, Seq<WarpEvent>, Seq<CoordEvent>), Seq<char>>
{
    match map_results(j.bg_events@, bg_step(syms)) { Err(e) => Err(e), Ok(b) =>
    match map_results(j.object_events@, object_step(syms)) { Err(e) => Err(e), Ok(o) =>
    match map_results(j.warp_events@, warp_step(syms)) { Err(e) => Err(e), Ok(w) =>
    match map_results(j.coord_events@, coord_step(syms)) { Err(e) => Err(e), Ok(c) =>
        Ok((b, o, w, c))
    }}}}
}

pub open spec fn bg_safe(syms: SymView, b: BgEventJson) -> bool {
    value_safe(syms, b.event_type) && opt_safe(syms, b.player_facing_dir)
}

pub open spec fn object_safe(syms: SymView, o: ObjectEventJson) -> bool {
    &&& value_safe(syms, o.graphics_id)
    &&& value_safe(syms, o.movement_type)
    &&& value_safe(syms, o.trainer_type)
    &&& opt_safe(syms, o.hidden_flag)
    &&& value_safe(syms, o.script)
}

/// No string of the file overflows the expression evaluator.
pub open spec fn platinum_json_safe(syms: SymView, j: PlatinumEventJson) -> bool {
    &&& forall|i: int| 0 <= i < j.bg_events@.len() ==> bg_safe(syms, #[trigger] j.bg_events@[i])
    &&& forall|i: int| 0 <= i < j.object_events@.len() ==> object_safe(syms, #[trigger] j.object_events@[i])
    &&& forall|i: int| 0 <= i < j.warp_events@.len() ==> value_safe(syms, (#[trigger] j.warp_events@[i]).dest_header_id)
    &&& forall|i: int| 0 <= i < j.coord_events@.len() ==> {
        let c = #[trigger] j.coord_events@[i];
        value_safe(syms, c.value) && opt_safe(syms, c.var)
    }
}

// ----- writing the JSON form -----

pub open spec fn trainer_family() -> spec_fn(Seq<char>) -> bool {
    |n: Seq<char>| ConstantFamily::family_of(n) == Some(ConstantFamily::Trainer)
}

/// The trainer constant a script written with base `base` stands for: the
/// shortest `TRAINER_` name of trainer `script - base + 1`.
pub open spec fn trainer_name_at(ins: Seq<(Seq<char>, i64)>, script: u16, base: int) -> Option<Seq<char>> {
    if script >= base {
        shortest_name(ins, (script - base + 1) as i64, trainer_family())
    } else {
        None
    }
}

/// A script is written as the trainer it starts a battle with where a
/// trainer constant names it (base 5000 marks the second trainer of a
/// double battle, base 3000 a single one), else as its number.
pub open spec fn emitted_script(ins: Seq<(Seq<char>, i64)>, script: u16, v: JsonValue, dbl: Option<u8>) -> bool {
    match trainer_name_at(ins, script, 5000) {
        Some(n) => json_text(v, n) && dbl == Some(2u8),
        None => match trainer_name_at(ins, script, 3000) {
            Some(n) => json_text(v, n) && dbl == Some(1u8),
            None => json_num(v, script as int) && dbl is None,
        },
    }
}

/// How many data slots are written: up to the last one that is not zero.
pub open spec fn data_len(d: [u16; 3]) -> int {
    if d@[2] != 0 {
        3
    } else if d@[1] != 0 {
        2
    } else if d@[0] != 0 {
        1
    } else {
        0
    }
}

pub open spec fn emitted_bg(b: BgEvent, j: BgEventJson) -> bool {
    &&& j.script == b.script
    &&& json_num(j.event_type, b.event_type as int)
    &&& j.x == b.x && j.z == b.z && j.y == b.y
    &&& if b.player_facing_dir == 0 {
        j.player_facing_dir is None
    } else {
        j.player_facing_dir matches Some(v) && json_num(v, b.player_facing_dir as int)
    }
}

/// The JSON of the object at `index`: its height divided by `0x10000`, a
/// clone id only where its local id is not its index.
pub open spec fn emitted_object(ins: Seq<(Seq<char>, i64)>, o: ObjectEvent, index: int, j: ObjectEventJson) -> bool {
    &&& j.id@ == "OBJ_"@ + dec(o.local_id as nat)
    &&& json_num(j.graphics_id, o.graphics_id as int)
    &&& json_num(j.movement_type, o.movement_type as int)
    &&& json_num(j.trainer_type, o.trainer_type as int)
    &&& j.hidden_flag matches Some(h) && json_num(h, o.hidden_flag as int)
    &&& emitted_script(ins, o.script, j.script, j.double_battle_id)
    &&& j.initial_dir == o.dir
    &&& j.data@ == o.data@.take(data_len(o.data))
    &&& j.movement_range_x == o.movement_range_x && j.movement_range_z == o.movement_range_z
    &&& j.x == o.x && j.z == o.z
    &&& o.y % 0x10000 == 0 && j.y == o.y / 0x10000
    &&& j.clone_id == if o.local_id as int != index { Some(o.local_id) } else { None }
}

pub open spec fn emitted_warp(w: WarpEvent, j: WarpEventJson) -> bool {
    &&& w.height == 0
    &&& j.x == w.x && j.z == w.z && j.dest_warp_id == w.dest_warp_id
    &&& json_num(j.dest_header_id, w.dest_header_id as int)
}

pub open spec fn emitted_coord(c: CoordEvent, j: CoordEventJson) -> bool {
    &&& j.script == c.script && j.x == c.x && j.z == c.z
    &&& j.width == c.width && j.length == c.length && j.y == c.y
    &&& json_num(j.value, c.value as int)
    &&& if c.var == 0 { j.var is None } else { j.var matches Some(v) && json_num(v, c.var as int) }
}

/// `j` is the Platinum JSON written for `f`; `ins` are the table's own
/// constants.
pub open spec fn platinum_emitted(ins: Seq<(Seq<char>, i64)>, f: EventFile, j: PlatinumEventJson) -> bool {
    &&& j.bg_events@.len() == f.bg_events@.len()
    &&& forall|i: int| 0 <= i < f.bg_events@.len() ==> emitted_bg(#[trigger] f.bg_events@[i], j.bg_events@[i])
    &&& j.object_events@.len() == f.object_events@.len()
    &&& forall|i: int| 0 <= i < f.object_events@.len() ==> emitted_object(ins, #[trigger] f.object_events@[i], i, j.object_events@[i])
    &&& j.warp_events@.len() == f.warp_events@.len()
    &&& forall|i: int| 0 <= i < f.warp_events@.len() ==> emitted_warp(#[trigger] f.warp_events@[i], j.warp_events@[i])
    &&& j.coord_events@.len() == f.coord_events@.len()
    &&& forall|i: int| 0 <= i < f.coord_events@.len() ==> emitted_coord(#[trigger] f.coord_events@[i], j.coord_events@[i])
}

pub open spec fn y_check() -> spec_fn(ObjectEvent, int) -> Result<(), Seq<char>> {
    |o: ObjectEvent, i: int| if o.y % 0x10000 == 0 {
        Ok(())
    } else {
        Err("object y "@ + dec_int(o.y as int) + " is not a multiple of 0x10000"@)
    }
}

pub open spec fn height_check() -> spec_fn(WarpEvent, int) -> Result<(), Seq<char>> {
    |w: WarpEvent, i: int| if w.height == 0 {
        Ok(())
    } else {
        Err(field_error_text("warp.height"@, "Platinum JSON cannot represent non-zero warp height "@
            + dec(w.height as nat)))
    }
}

/// Why a file has no Platinum JSON form: the first object whose height is
/// not a multiple of `0x10000`, else the first warp with a height.
pub open spec fn platinum_emit_check(f: EventFile) -> Result<(), Seq<char>> {
    match map_results(f.object_events@, y_check()) {
        Err(m) => Err(m),
        Ok(_) => match map_results(f.warp_events@, height_check()) {
            Err(m) => Err(m),
            Ok(_) => Ok(()),
        },
    }
}

fn eval_i64(symbols: &SymbolTable, value: &JsonValue, field: &str) -> (r: Result<i64, String>)
    requires
        value_safe(symbols.sv(), *value),
    ensures
        text_result(r) == pt_i64(symbols.sv(), *value, field@),
{
    match value {
        JsonValue::Number(Some(n), _) => Ok(*n),
        JsonValue::Number(None, t) => {
            let mut m = String::from_str("invalid number ");
            push_str(&mut m, t.as_str());
            Err(field_error(field, m.as_str()))
        },
        JsonValue::Bool(b) => Ok(if *b { 1 } else { 0 }),
        JsonValue::Text(s) => evaluate_field(symbols, s.as_str(), field),
        JsonValue::Other(t) => {
            let mut m = String::from_str("expected number, string, or boolean, got ");
            push_str(&mut m, t.as_str());
            Err(field_error(field, m.as_str()))
        },
    }
}

fn eval_u16(symbols: &SymbolTable, value: &JsonValue, field: &str) -> (r: Result<u16, String>)
    requires
        value_safe(symbols.sv(), *value),
    ensures
        text_result(r) == pt_u16(symbols.sv(), *value, field@),
{
    let raw = match eval_i64(symbols, value, field) {
        Ok(x) => x,
        Err(e) => return Err(e),
    };
    if 0 <= raw && raw <= 0xffff {
        Ok(raw as u16)
    } else {
        Err(out_of_range_error(field, raw, "u16"))
    }
}

fn eval_opt_u16(symbols: &SymbolTable, value: &Option<JsonValue>, field: &str) -> (r: Result<u16, String>)
    requires
        opt_safe(symbols.sv(), *value),
    ensures
        text_result(r) == pt_opt_u16(symbols.sv(), *value, field@),
{
    match value {
        Some(v) => eval_u16(symbols, v, field),
        None => Ok(0),
    }
}

fn eval_script_expr(symbols: &SymbolTable, name: &str) -> (r: Result<u16, String>)
    requires
        !crate::c_parser::symbol_table::evaluation_panics(symbols.sv(), trim(name@)),
    ensures
        text_result(r) == pt_script_expr(symbols.sv(), name@),
{
    let e = trimmed(name);
    match symbols.evaluate_expression(e.as_str()) {
        Some(raw) => if 0 <= raw && raw <= 0xffff {
            Ok(raw as u16)
        } else {
            let mut m = String::from_str("`");
            push_str(&mut m, e.as_str());
            push_str(&mut m, "` = ");
            let n = i64_to_string(raw);
            push_str(&mut m, n.as_str());
            push_str(&mut m, " out of range for u16");
            Err(field_error("script", m.as_str()))
        },
        None => Err(crate::event_file::values::unknown_expr_error("script", e.as_str())),
    }
}

fn resolve_platinum_script(symbols: &SymbolTable, value: &JsonValue, double_battle_id: Option<u8>) -> (r: Result<u16, String>)
    requires
        lookups_safe(symbols.sv()),
        value_safe(symbols.sv(), *value),
    ensures
        text_result(r) == pt_script(symbols.sv(), *value, double_battle_id),
{
    match value {
        JsonValue::Text(name) => {
            let v = chars_of(name.as_str());
            let n = v.len();
            assert(v@.subrange(0, n as int) =~= name@);
            if prefix_at(&v, 0, n, "TRAINER_") {
                proof { lemma_lookups_safe(symbols.sv(), name@); }
                if let Some(t) = symbols.resolve_constant(name.as_str()) {
                    let base: i64 = if double_battle_id == Some(2u8) { 5000 } else { 3000 };
                    if !(0 <= t && t <= 0xffff) {
                        let mut m = String::from_str("trainer constant ");
                        push_str(&mut m, name.as_str());
                        push_str(&mut m, " out of range");
                        return Err(field_error("script", m.as_str()));
                    } else if t == 0 || base + t - 1 > 0xffff {
                        let mut m = String::from_str("trainer script overflow for ");
                        push_str(&mut m, name.as_str());
                        return Err(field_error("script", m.as_str()));
                    } else {
                        return Ok((base + t - 1) as u16);
                    }
                }
            }
            eval_script_expr(symbols, name.as_str())
        },
        _ => {
            let raw = match eval_i64(symbols, value, "script") {
                Ok(x) => x,
                Err(e) => return Err(e),
            };
            if 0 <= raw && raw <= 0xffff {
                Ok(raw as u16)
            } else {
                let mut m = String::from_str("script ");
                let n = i64_to_string(raw);
                push_str(&mut m, n.as_str());
                push_str(&mut m, " out of range for u16");
                Err(field_error("script", m.as_str()))
            }
        },
    }
}

fn binary_y(y: i32) -> (r: Result<i32, String>)
    ensures
        text_result(r) == pt_binary_y(y),
{
    let scaled: i64 = (y as i64) * 0x10000;
    if i32::MIN as i64 <= scaled && scaled <= i32::MAX as i64 {
        Ok(scaled as i32)
    } else {
        let mut m = String::from_str("object y ");
        let n = i64_to_string(y as i64);
        push_str(&mut m, n.as_str());
        push_str(&mut m, " overflows when scaled for Platinum binary");
        Err(m)
    }
}


fn parse_bg_event(bg: &BgEventJson, symbols: &SymbolTable) -> (r: Result<BgEvent, String>)
    requires
        bg_safe(symbols.sv(), *bg),
    ensures
        text_result(r) == pt_bg(symbols.sv(), *bg),
{
    let event_type = match eval_u16(symbols, &bg.event_type, "type") {
        Ok(v) => v,
        Err(e) => return Err(e),
    };
    let player_facing_dir = match eval_opt_u16(symbols, &bg.player_facing_dir, "player_facing_dir") {
        Ok(v) => v,
        Err(e) => return Err(e),
    };
    Ok(BgEvent { script: bg.script, event_type, x: bg.x, z: bg.z, y: bg.y, player_facing_dir })
}

#[verifier::spinoff_prover]
fn parse_object_event(obj: &ObjectEventJson, index: usize, symbols: &SymbolTable) -> (r: Result<ObjectEvent, String>)
    requires
        lookups_safe(symbols.sv()),
        object_safe(symbols.sv(), *obj),
    ensures
        text_result(r) == pt_object(symbols.sv(), *obj, index as int),
{
    let n = obj.data.len();
    if n > 3 {
        let mut m = String::from_str("object data has ");
        push_dec(&mut m, n as u64);
        push_str(&mut m, " entries, maximum is 3");
        return Err(field_error("data", m.as_str()));
    }
    if index > 0xffff {
        let mut m = String::from_str("object index ");
        push_dec(&mut m, index as u64);
        push_str(&mut m, " exceeds u16");
        return Err(field_error("clone_id", m.as_str()));
    }
    let d0: u16 = if 0 < n { obj.data[0] } else { 0 };
    let d1: u16 = if 1 < n { obj.data[1] } else { 0 };
    let d2: u16 = if 2 < n { obj.data[2] } else { 0 };
    let graphics_id = match eval_u16(symbols, &obj.graphics_id, "graphics_id") {
        Ok(v) => v,
        Err(e) => return Err(e),
    };
    let movement_type = match eval_u16(symbols, &obj.movement_type, "movement_type") {
        Ok(v) => v,
        Err(e) => return Err(e),
    };
    let trainer_type = match eval_u16(symbols, &obj.trainer_type, "trainer_type") {
        Ok(v) => v,
        Err(e) => return Err(e),
    };
    let hidden_flag = match eval_opt_u16(symbols, &obj.hidden_flag, "hidden_flag") {
        Ok(v) => v,
        Err(e) => return Err(e),
    };
    let script = match resolve_platinum_script(symbols, &obj.script, obj.double_battle_id) {
        Ok(v) => v,
        Err(e) => return Err(e),
    };
    let y = match binary_y(obj.y) {
        Ok(v) => v,
        Err(e) => return Err(e),
    };
    let local_id = match obj.clone_id {
        Some(c) => c,
        None => index as u16,
    };
    Ok(ObjectEvent {
        local_id,
        graphics_id,
        movement_type,
        trainer_type,
        hidden_flag,
        script,
        dir: obj.initial_dir,
        data: [d0, d1, d2],
        movement_range_x: obj.movement_range_x,
        movement_range_z: obj.movement_range_z,
        x: obj.x,
        z: obj.z,
        y,
    })
}

fn parse_warp_event(warp: &WarpEventJson, symbols: &SymbolTable) -> (r: Result<WarpEvent, String>)
    requires
        value_safe(symbols.sv(), warp.dest_header_id),
    ensures
        text_result(r) == pt_warp(symbols.sv(), *warp),
{
    let dest_header_id = match eval_u16(symbols, &warp.dest_header_id, "dest_header_id") {
        Ok(v) => v,
        Err(e) => return Err(e),
    };
    Ok(WarpEvent { x: warp.x, z: warp.z, dest_header_id, dest_warp_id: warp.dest_warp_id, height: 0 })
}

fn parse_coord_event(coord: &CoordEventJson, symbols: &SymbolTable) -> (r: Result<CoordEvent, String>)
    requires
        value_safe(symbols.sv(), coord.value),
        opt_safe(symbols.sv(), coord.var),
    ensures
        text_result(r) == pt_coord(symbols.sv(), *coord),
{
    let value = match eval_u16(symbols, &coord.value, "value") {
        Ok(v) => v,
        Err(e) => return Err(e),
    };
    let var = match eval_opt_u16(symbols, &coord.var, "var") {
        Ok(v) => v,
        Err(e) => return Err(e),
    };
    Ok(CoordEvent {
        script: coord.script,
        x: coord.x,
        z: coord.z,
        width: coord.width,
        length: coord.length,
        y: coord.y,
        value,
        var,
    })
}


fn parse_bg_events(list: &Vec<BgEventJson>, symbols: &SymbolTable) -> (r: Result<Vec<BgEvent>, String>)
    requires
        forall|i: int| 0 <= i < list@.len() ==> bg_safe(symbols.sv(), #[trigger] list@[i]),
    ensures
        match map_results(list@, bg_step(symbols.sv())) {
            Ok(v) => r matches Ok(out) && out@ == v,
            Err(m) => r matches Err(e) && e@ == m,
        },
{
    let mut out: Vec<BgEvent> = Vec::new();
    let mut i: usize = 0;
    while i < list.len()
        invariant
            i <= list@.len(),
            forall|k: int| 0 <= k < list@.len() ==> bg_safe(symbols.sv(), #[trigger] list@[k]),
            map_results(list@.take(i as int), bg_step(symbols.sv())) == Ok::<Seq<BgEvent>, Seq<char>>(out@),
        decreases list@.len() - i,
    {
        proof { lemma_map_results_step(list@, i as int, bg_step(symbols.sv())); }
        match parse_bg_event(&list[i], symbols) {
            Ok(b) => out.push(b),
            Err(e) => {
                proof { lemma_map_results_stops(list@, i as int, bg_step(symbols.sv())); }
                return Err(e);
            },
        }
        i = i + 1;
    }
    assert(list@.take(list@.len() as int) =~= list@);
    Ok(out)
}

fn parse_object_events(list: &Vec<ObjectEventJson>, symbols: &SymbolTable) -> (r: Result<Vec<ObjectEvent>, String>)
    requires
        lookups_safe(symbols.sv()),
        forall|i: int| 0 <= i < list@.len() ==> object_safe(symbols.sv(), #[trigger] list@[i]),
    ensures
        match map_results(list@, object_step(symbols.sv())) {
            Ok(v) => r matches Ok(out) && out@ == v,
            Err(m) => r matches Err(e) && e@ == m,
        },
{
    let mut out: Vec<ObjectEvent> = Vec::new();
    let mut i: usize = 0;
    while i < list.len()
        invariant
            lookups_safe(symbols.sv()),
            i <= list@.len(),
            forall|k: int| 0 <= k < list@.len() ==> object_safe(symbols.sv(), #[trigger] list@[k]),
            map_results(list@.take(i as int), object_step(symbols.sv())) == Ok::<Seq<ObjectEvent>, Seq<char>>(out@),
        decreases list@.len() - i,
    {
        proof { lemma_map_results_step(list@, i as int, object_step(symbols.sv())); }
        match parse_object_event(&list[i], i, symbols) {
            Ok(b) => out.push(b),
            Err(e) => {
                proof { lemma_map_results_stops(list@, i as int, object_step(symbols.sv())); }
                return Err(e);
            },
        }
        i = i + 1;
    }
    assert(list@.take(list@.len() as int) =~= list@);
    Ok(out)
}

fn parse_warp_events(list: &Vec<WarpEventJson>, symbols: &SymbolTable) -> (r: Result<Vec<WarpEvent>, String>)
    requires
        forall|i: int| 0 <= i < list@.len() ==> value_safe(symbols.sv(), (#[trigger] list@[i]).dest_header_id),
    ensures
        match map_results(list@, warp_step(symbols.sv())) {
            Ok(v) => r matches Ok(out) && out@ == v,
            Err(m) => r matches Err(e) && e@ == m,
        },
{
    let mut out: Vec<WarpEvent> = Vec::new();
    let mut i: usize = 0;
    while i < list.len()
        invariant
            i <= list@.len(),
            forall|k: int| 0 <= k < list@.len() ==> value_safe(symbols.sv(), (#[trigger] list@[k]).dest_header_id),
            map_results(list@.take(i as int), warp_step(symbols.sv())) == Ok::<Seq<WarpEvent>, Seq<char>>(out@),
        decreases list@.len() - i,
    {
        proof { lemma_map_results_step(list@, i as int, warp_step(symbols.sv())); }
        match parse_warp_event(&list[i], symbols) {
            Ok(b) => out.push(b),
            Err(e) => {
                proof { lemma_map_results_stops(list@, i as int, warp_step(symbols.sv())); }
                return Err(e);
            },
        }
        i = i + 1;
    }
    assert(list@.take(list@.len() as int) =~= list@);
    Ok(out)
}

fn parse_coord_events(list: &Vec<CoordEventJson>, symbols: &SymbolTable) -> (r: Result<Vec<CoordEvent>, String>)
    requires
        forall|i: int| 0 <= i < list@.len() ==> {
            let c = #[trigger] list@[i];
            value_safe(symbols.sv(), c.value) && opt_safe(symbols.sv(), c.var)
        },
    ensures
        match map_results(list@, coord_step(symbols.sv())) {
            Ok(v) => r matches Ok(out) && out@ == v,
            Err(m) => r matches Err(e) && e@ == m,
        },
{
    let mut out: Vec<CoordEvent> = Vec::new();
    let mut i: usize = 0;
    while i < list.len()
        invariant
            i <= list@.len(),
            forall|k: int| 0 <= k < list@.len() ==> {
                let c = #[trigger] list@[k];
                value_safe(symbols.sv(), c.value) && opt_safe(symbols.sv(), c.var)
            },
            map_results(list@.take(i as int), coord_step(symbols.sv())) == Ok::<Seq<CoordEvent>, Seq<char>>(out@),
        decreases list@.len() - i,
    {
        proof { lemma_map_results_step(list@, i as int, coord_step(symbols.sv())); }
        match parse_coord_event(&list[i], symbols) {
            Ok(b) => out.push(b),
            Err(e) => {
                proof { lemma_map_results_stops(list@, i as int, coord_step(symbols.sv())); }
                return Err(e);
            },
        }
        i = i + 1;
    }
    assert(list@.take(list@.len() as int) =~= list@);
    Ok(out)
}

impl EventFile {
    /// Resolve an event file from its Platinum JSON form; the first bad
    /// value (background events first, then objects, warps and coordinate
    /// triggers) gives an `InvalidData` error.
    pub fn from_platinum_json(json: &PlatinumEventJson, symbols: &SymbolTable) -> (r: Result<EventFile, UxieError>)
        requires
            lookups_safe(symbols.sv()),
            platinum_json_safe(symbols.sv(), *json),
        ensures
            match platinum_events(symbols.sv(), *json) {
                Ok((b, o, w, c)) => r matches Ok(f) && f.bg_events@ == b && f.object_events@ == o
                    && f.warp_events@ == w && f.coord_events@ == c,
                Err(m) => r matches Err(e) && invalid_data_text(e) == Some(m),
            },
    {
        let bg_events = match parse_bg_events(&json.bg_events, symbols) {
            Ok(v) => v,
            Err(m) => return Err(crate::event_file::values::data_error(m)),
        };
        let object_events = match parse_object_events(&json.object_events, symbols) {
            Ok(v) => v,
            Err(m) => return Err(crate::event_file::values::data_error(m)),
        };
        let warp_events = match parse_warp_events(&json.warp_events, symbols) {
            Ok(v) => v,
            Err(m) => return Err(crate::event_file::values::data_error(m)),
        };
        let coord_events = match parse_coord_events(&json.coord_events, symbols) {
            Ok(v) => v,
            Err(m) => return Err(crate::event_file::values::data_error(m)),
        };
        Ok(EventFile { bg_events, object_events, warp_events, coord_events })
    }
}


// ----- writing the JSON form -----

fn emit_bg_event(bg: &BgEvent) -> (j: BgEventJson)
    ensures
        emitted_bg(*bg, j),
{
    BgEventJson {
        script: bg.script,
        event_type: number_value(bg.event_type as i64),
        x: bg.x,
        z: bg.z,
        y: bg.y,
        player_facing_dir: if bg.player_facing_dir == 0 {
            None
        } else {
            Some(number_value(bg.player_facing_dir as i64))
        },
    }
}

fn emit_platinum_script(script: u16, symbols: &SymbolTable) -> (r: (JsonValue, Option<u8>))
    requires
        symbols.well_formed(),
    ensures
        emitted_script(symbols.inserted(), script, r.0, r.1),
{
    proof {
        assert((|n: Seq<char>| ConstantFamily::family_of(n) == Some(ConstantFamily::Trainer)) =~= trainer_family());
    }
    if script >= 5000 {
        if let Some(name) = symbols.resolve_name_in_family((script - 5000 + 1) as i64, ConstantFamily::Trainer) {
            return (JsonValue::Text(name), Some(2u8));
        }
    }
    if script >= 3000 {
        if let Some(name) = symbols.resolve_name_in_family((script - 3000 + 1) as i64, ConstantFamily::Trainer) {
            return (JsonValue::Text(name), Some(1u8));
        }
    }
    (number_value(script as i64), None)
}

/// The JSON height of an object: its binary height over `0x10000`.
fn json_y(y: i32) -> (r: Result<i32, String>)
    ensures
        y % 0x10000 == 0 ==> r == Ok::<i32, String>((y / 0x10000) as i32),
        y % 0x10000 != 0 ==> (r matches Err(e) && e@ == "object y "@ + dec_int(y as int)
            + " is not a multiple of 0x10000"@),
{
    let w: i64 = y as i64;
    let a: u64 = if w < 0 { (-w) as u64 } else { w as u64 };
    let rem = a % 0x10000;
    proof {
        let (yi, ai) = (y as int, a as int);
        assert(yi == ai || yi == -ai);
        assert(yi == -ai ==> (yi % 0x10000 == 0 <==> ai % 0x10000 == 0)) by (nonlinear_arith);
        assert((yi == -ai && ai % 0x10000 == 0) ==> yi / 0x10000 == -(ai / 0x10000)) by (nonlinear_arith);
    }
    if rem != 0 {
        let mut m = String::from_str("object y ");
        let n = i64_to_string(w);
        push_str(&mut m, n.as_str());
        push_str(&mut m, " is not a multiple of 0x10000");
        return Err(m);
    }
    let q: i64 = (a / 0x10000) as i64;
    let v: i64 = if w < 0 { -q } else { q };
    Ok(v as i32)
}

fn emit_object_event(obj: &ObjectEvent, index: usize, symbols: &SymbolTable) -> (r: Result<ObjectEventJson, String>)
    requires
        symbols.well_formed(),
    ensures
        match (y_check())(*obj, index as int) {
            Err(m) => r matches Err(e) && e@ == m,
            Ok(_) => r matches Ok(j) && emitted_object(symbols.inserted(), *obj, index as int, j),
        },
{
    let y = match json_y(obj.y) {
        Ok(v) => v,
        Err(e) => return Err(e),
    };
    let n: usize = if obj.data[2] != 0 {
        3
    } else if obj.data[1] != 0 {
        2
    } else if obj.data[0] != 0 {
        1
    } else {
        0
    };
    let mut data: Vec<u16> = Vec::new();
    let mut k: usize = 0;
    while k < n
        invariant
            k <= n <= 3,
            n == data_len(obj.data),
            data@ == obj.data@.take(k as int),
        decreases n - k,
    {
        data.push(obj.data[k]);
        k = k + 1;
        assert(data@ =~= obj.data@.take(k as int));
    }
    let mut id = String::from_str("OBJ_");
    push_dec(&mut id, obj.local_id as u64);
    let (script, double_battle_id) = emit_platinum_script(obj.script, symbols);
    Ok(ObjectEventJson {
        id,
        graphics_id: number_value(obj.graphics_id as i64),
        movement_type: number_value(obj.movement_type as i64),
        trainer_type: number_value(obj.trainer_type as i64),
        hidden_flag: Some(number_value(obj.hidden_flag as i64)),
        script,
        initial_dir: obj.dir,
        data,
        movement_range_x: obj.movement_range_x,
        movement_range_z: obj.movement_range_z,
        x: obj.x,
        z: obj.z,
        y,
        clone_id: if obj.local_id as usize != index { Some(obj.local_id) } else { None },
        double_battle_id,
    })
}

fn emit_warp_event(warp: &WarpEvent) -> (r: Result<WarpEventJson, String>)
    ensures
        match (height_check())(*warp, 0) {
            Err(m) => r matches Err(e) && e@ == m,
            Ok(_) => r matches Ok(j) && emitted_warp(*warp, j),
        },
{
    if warp.height != 0 {
        let mut m = String::from_str("Platinum JSON cannot represent non-zero warp height ");
        push_dec(&mut m, warp.height as u64);
        return Err(field_error("warp.height", m.as_str()));
    }
    Ok(WarpEventJson {
        x: warp.x,
        z: warp.z,
        dest_header_id: number_value(warp.dest_header_id as i64),
        dest_warp_id: warp.dest_warp_id,
    })
}

fn emit_coord_event(coord: &CoordEvent) -> (j: CoordEventJson)
    ensures
        emitted_coord(*coord, j),
{
    CoordEventJson {
        script: coord.script,
        x: coord.x,
        z: coord.z,
        width: coord.width,
        length: coord.length,
        y: coord.y,
        value: number_value(coord.value as i64),
        var: if coord.var == 0 { None } else { Some(number_value(coord.var as i64)) },
    }
}

fn emit_objects(list: &Vec<ObjectEvent>, symbols: &SymbolTable) -> (r: Result<Vec<ObjectEventJson>, String>)
    requires
        symbols.well_formed(),
    ensures
        match map_results(list@, y_check()) {
            Err(m) => r matches Err(e) && e@ == m,
            Ok(_) => r matches Ok(out) && out@.len() == list@.len() && forall|i: int| 0 <= i < list@.len()
                ==> emitted_object(symbols.inserted(), #[trigger] list@[i], i, out@[i]),
        },
{
    let mut out: Vec<ObjectEventJson> = Vec::new();
    let mut i: usize = 0;
    while i < list.len()
        invariant
            i <= list@.len(),
            symbols.well_formed(),
            out@.len() == i,
            map_results(list@.take(i as int), y_check()) is Ok,
            forall|k: int| 0 <= k < i ==> emitted_object(symbols.inserted(), #[trigger] list@[k], k, out@[k]),
        decreases list@.len() - i,
    {
        proof { lemma_map_results_step(list@, i as int, y_check()); }
        match emit_object_event(&list[i], i, symbols) {
            Ok(j) => out.push(j),
            Err(e) => {
                proof { lemma_map_results_stops(list@, i as int, y_check()); }
                return Err(e);
            },
        }
        i = i + 1;
    }
    assert(list@.take(list@.len() as int) =~= list@);
    Ok(out)
}

fn emit_warps(list: &Vec<WarpEvent>) -> (r: Result<Vec<WarpEventJson>, String>)
    ensures
        match map_results(list@, height_check()) {
            Err(m) => r matches Err(e) && e@ == m,
            Ok(_) => r matches Ok(out) && out@.len() == list@.len() && forall|i: int| 0 <= i < list@.len()
                ==> emitted_warp(#[trigger] list@[i], out@[i]),
        },
{
    let mut out: Vec<WarpEventJson> = Vec::new();
    let mut i: usize = 0;
    while i < list.len()
        invariant
            i <= list@.len(),
            out@.len() == i,
            map_results(list@.take(i as int), height_check()) is Ok,
            forall|k: int| 0 <= k < i ==> emitted_warp(#[trigger] list@[k], out@[k]),
        decreases list@.len() - i,
    {
        proof { lemma_map_results_step(list@, i as int, height_check()); }
        match emit_warp_event(&list[i]) {
            Ok(j) => out.push(j),
            Err(e) => {
                proof { lemma_map_results_stops(list@, i as int, height_check()); }
                return Err(e);
            },
        }
        i = i + 1;
    }
    assert(list@.take(list@.len() as int) =~= list@);
    Ok(out)
}

impl EventFile {
    /// The Platinum JSON form of an event file: values as numbers, scripts
    /// as trainer constants where one names them, heights over `0x10000`.
    /// A height that is not a multiple of `0x10000`, or a warp with a
    /// height, has no such form.
    pub fn to_platinum_json(&self, symbols: &SymbolTable) -> (r: Result<PlatinumEventJson, UxieError>)
        requires
            symbols.well_formed(),
        ensures
            match platinum_emit_check(*self) {
                Err(m) => r matches Err(e) && invalid_data_text(e) == Some(m),
                Ok(_) => r matches Ok(j) && platinum_emitted(symbols.inserted(), *self, j),
            },
    {
        let mut bg_events: Vec<BgEventJson> = Vec::new();
        let mut i: usize = 0;
        while i < self.bg_events.len()
            invariant
                i <= self.bg_events@.len(),
                bg_events@.len() == i,
                forall|k: int| 0 <= k < i ==> emitted_bg(#[trigger] self.bg_events@[k], bg_events@[k]),
            decreases self.bg_events@.len() - i,
        {
            bg_events.push(emit_bg_event(&self.bg_events[i]));
            i = i + 1;
        }
        let object_events = match emit_objects(&self.object_events, symbols) {
            Ok(v) => v,
            Err(m) => return Err(crate::event_file::values::data_error(m)),
        };
        let warp_events = match emit_warps(&self.warp_events) {
            Ok(v) => v,
            Err(m) => return Err(crate::event_file::values::data_error(m)),
        };
        let mut coord_events: Vec<CoordEventJson> = Vec::new();
        let mut i: usize = 0;
        while i < self.coord_events.len()
            invariant
                i <= self.coord_events@.len(),
                coord_events@.len() == i,
                forall|k: int| 0 <= k < i ==> emitted_coord(#[trigger] self.coord_events@[k], coord_events@[k]),
            decreases self.coord_events@.len() - i,
        {
            coord_events.push(emit_coord_event(&self.coord_events[i]));
            i = i + 1;
        }
        Ok(PlatinumEventJson { bg_events, object_events, warp_events, coord_events })
    }
}

impl PlatinumEventJson {
    /// The Platinum JSON form of an event file (see
    /// [`EventFile::to_platinum_json`]).
    pub fn from_event_file(file: &EventFile, symbols: &SymbolTable) -> (r: Result<PlatinumEventJson, UxieError>)
        requires
            symbols.well_formed(),
        ensures
            match platinum_emit_check(*file) {
                Err(m) => r matches Err(e) && invalid_data_text(e) == Some(m),
                Ok(_) => r matches Ok(j) && platinum_emitted(symbols.inserted(), *file, j),
            },
    {
        file.to_platinum_json(symbols)
    }
}


// ----- reading back what was written -----

proof fn lemma_num_u16(syms: SymView, v: JsonValue, n: u16, field: Seq<char>)
    requires
        json_num(v, n as int),
    ensures
        pt_u16(syms, v, field) == Ok::<u16, Seq<char>>(n),
{
}

proof fn lemma_bg_round_trip(syms: SymView, b: BgEvent, j: BgEventJson)
    requires
        emitted_bg(b, j),
    ensures
        pt_bg(syms, j) == Ok::<BgEvent, Seq<char>>(b),
{
    lemma_num_u16(syms, j.event_type, b.event_type, "type"@);
    if b.player_facing_dir != 0 {
        lemma_num_u16(syms, j.player_facing_dir->0, b.player_facing_dir, "player_facing_dir"@);
    }
}

/// A trainer name written for a script reads back as the same script.
proof fn lemma_script_round_trip(syms: SymView, ins: Seq<(Seq<char>, i64)>, script: u16, v: JsonValue, dbl: Option<u8>)
    requires
        names_consistent(syms.entries),
        exists|k: int| 0 <= k <= syms.entries.len() && ins == #[trigger] syms.entries.skip(k),
        emitted_script(ins, script, v, dbl),
    ensures
        pt_script(syms, v, dbl) == Ok::<u16, Seq<char>>(script),
{
    let base: int = if trainer_name_at(ins, script, 5000) is Some { 5000 } else { 3000 };
    match trainer_name_at(ins, script, base) {
        Some(n) => {
            let tid = (script - base + 1) as i64;
            lemma_shortest_name_inserted(ins, tid, trainer_family());
            let i = choose|i: int| 0 <= i < ins.len() && #[trigger] ins[i] == (n, tid) && (trainer_family())(n);
            let k = choose|k: int| 0 <= k <= syms.entries.len() && ins == #[trigger] syms.entries.skip(k);
            assert(syms.entries[k + i] == ins[i]);
            lemma_lookup_consistent(syms.entries, k + i);
            assert(ConstantFamily::family_of(n) == Some(ConstantFamily::Trainer));
            assert(starts_with(n, "TRAINER_"@));
            assert(resolved(syms, n) == Some(tid));
        },
        None => {
            assert(json_num(v, script as int));
        },
    }
}

proof fn lemma_object_round_trip(syms: SymView, ins: Seq<(Seq<char>, i64)>, o: ObjectEvent, index: int, j: ObjectEventJson)
    requires
        names_consistent(syms.entries),
        exists|k: int| 0 <= k <= syms.entries.len() && ins == #[trigger] syms.entries.skip(k),
        0 <= index <= 0xffff,
        emitted_object(ins, o, index, j),
    ensures
        pt_object(syms, j, index) == Ok::<ObjectEvent, Seq<char>>(o),
{
    lemma_num_u16(syms, j.graphics_id, o.graphics_id, "graphics_id"@);
    lemma_num_u16(syms, j.movement_type, o.movement_type, "movement_type"@);
    lemma_num_u16(syms, j.trainer_type, o.trainer_type, "trainer_type"@);
    lemma_num_u16(syms, j.hidden_flag->0, o.hidden_flag, "hidden_flag"@);
    lemma_script_round_trip(syms, ins, o.script, j.script, j.double_battle_id);
    vstd::arithmetic::div_mod::lemma_fundamental_div_mod(o.y as int, 0x10000);
    assert(pt_binary_y(j.y) == Ok::<i32, Seq<char>>(o.y));
    let d = o.data@.take(data_len(o.data));
    assert(j.data@ == d);
    assert(data_slot(d, 0) == o.data@[0] && data_slot(d, 1) == o.data@[1] && data_slot(d, 2) == o.data@[2]);
    let p = pt_object(syms, j, index);
    assert(p matches Ok(r) && r.data@ =~= o.data@);
    assert(p matches Ok(r) && r.data =~= o.data);
}

proof fn lemma_coord_round_trip(syms: SymView, c: CoordEvent, j: CoordEventJson)
    requires
        emitted_coord(c, j),
    ensures
        pt_coord(syms, j) == Ok::<CoordEvent, Seq<char>>(c),
{
    lemma_num_u16(syms, j.value, c.value, "value"@);
    if c.var != 0 {
        lemma_num_u16(syms, j.var->0, c.var, "var"@);
    }
}

/// Reading the Platinum JSON written for an event file gives the file back,
/// where no constant of the table was ever given two values and the file
/// has at most 65536 objects (an object's index must fit a `u16`).
pub proof fn lemma_platinum_json_round_trip(symbols: SymbolTable, f: EventFile, j: PlatinumEventJson)
    requires
        symbols.well_formed(),
        names_consistent(symbols@),
        f.object_events@.len() <= 0x10000,
        platinum_emitted(symbols.inserted(), f, j),
    ensures
        platinum_events(symbols.sv(), j) == Ok::<(Seq<BgEvent>, Seq<ObjectEvent>, Seq<WarpEvent>, Seq<CoordEvent>), Seq<char>>(
            (f.bg_events@, f.object_events@, f.warp_events@, f.coord_events@),
        ),
{
    let syms = symbols.sv();
    let ins = symbols.inserted();
    symbols.lemma_inserted_suffix();
    assert forall|i: int| 0 <= i < j.bg_events@.len() implies (bg_step(syms))(#[trigger] j.bg_events@[i], i)
        == Ok::<BgEvent, Seq<char>>(f.bg_events@[i]) by {
        lemma_bg_round_trip(syms, f.bg_events@[i], j.bg_events@[i]);
    }
    lemma_map_results_all_ok(j.bg_events@, bg_step(syms), f.bg_events@);
    assert forall|i: int| 0 <= i < j.object_events@.len() implies (object_step(syms))(#[trigger] j.object_events@[i], i)
        == Ok::<ObjectEvent, Seq<char>>(f.object_events@[i]) by {
        assert(emitted_object(ins, f.object_events@[i], i, j.object_events@[i]));
        lemma_object_round_trip(syms, ins, f.object_events@[i], i, j.object_events@[i]);
    }
    lemma_map_results_all_ok(j.object_events@, object_step(syms), f.object_events@);
    assert forall|i: int| 0 <= i < j.warp_events@.len() implies (warp_step(syms))(#[trigger] j.warp_events@[i], i)
        == Ok::<WarpEvent, Seq<char>>(f.warp_events@[i]) by {
        assert(emitted_warp(f.warp_events@[i], j.warp_events@[i]));
        lemma_num_u16(syms, j.warp_events@[i].dest_header_id, f.warp_events@[i].dest_header_id, "dest_header_id"@);
    }
    lemma_map_results_all_ok(j.warp_events@, warp_step(syms), f.warp_events@);
    assert forall|i: int| 0 <= i < j.coord_events@.len() implies (coord_step(syms))(#[trigger] j.coord_events@[i], i)
        == Ok::<CoordEvent, Seq<char>>(f.coord_events@[i]) by {
        lemma_coord_round_trip(syms, f.coord_events@[i], j.coord_events@[i]);
    }
    lemma_map_results_all_ok(j.coord_events@, coord_step(syms), f.coord_events@);
}


/// Law: reading a Platinum JSON event takes each field of the binary event
/// from the JSON field of the same name: a background event's script, x, z
/// and y as given, its type and facing direction as resolved (the
/// direction 0 when absent); an object's graphics, movement type, trainer
/// type and hidden flag as resolved, its script from `script` (with
/// `double_battle_id` for trainers), its direction from `initial_dir`, its
/// movement ranges, x and z as given, its height `y` times `0x10000`, its
/// data the listed values then zeros, its local id `clone_id` or else its
/// index; a warp's x, z and destination warp as given, its destination
/// header as resolved, height 0; a coordinate event's script, x, z, width,
/// length and y as given, its value and variable as resolved (the variable
/// 0 when absent).
pub proof fn platinum_event_fields(
    syms: SymView,
    b: BgEventJson,
    o: ObjectEventJson,
    index: int,
    w: WarpEventJson,
    c: CoordEventJson,
)
    ensures
        pt_bg(syms, b) matches Ok(e) ==> e.script == b.script && e.x == b.x && e.z == b.z && e.y == b.y
            && pt_u16(syms, b.event_type, "type"@) == Ok::<u16, Seq<char>>(e.event_type)
            && pt_opt_u16(syms, b.player_facing_dir, "player_facing_dir"@) == Ok::<u16, Seq<char>>(e.player_facing_dir),
        pt_object(syms, o, index) matches Ok(e) ==> pt_u16(syms, o.graphics_id, "graphics_id"@) == Ok::<u16, Seq<char>>(
            e.graphics_id) && pt_u16(syms, o.movement_type, "movement_type"@) == Ok::<u16, Seq<char>>(e.movement_type)
            && pt_u16(syms, o.trainer_type, "trainer_type"@) == Ok::<u16, Seq<char>>(e.trainer_type)
            && pt_opt_u16(syms, o.hidden_flag, "hidden_flag"@) == Ok::<u16, Seq<char>>(e.hidden_flag)
            && pt_script(syms, o.script, o.double_battle_id) == Ok::<u16, Seq<char>>(e.script)
            && e.dir == o.initial_dir && e.movement_range_x == o.movement_range_x
            && e.movement_range_z == o.movement_range_z && e.x == o.x && e.z == o.z
            && e.y as int == o.y * 0x10000
            && e.local_id == (match o.clone_id { Some(id) => id, None => index as u16 })
            && (forall|k: int| 0 <= k < 3 ==> #[trigger] e.data@[k] == if k < o.data@.len() { o.data@[k] } else { 0u16 }),
        pt_warp(syms, w) matches Ok(e) ==> e.x == w.x && e.z == w.z && e.dest_warp_id == w.dest_warp_id && e.height == 0
            && pt_u16(syms, w.dest_header_id, "dest_header_id"@) == Ok::<u16, Seq<char>>(e.dest_header_id),
        pt_coord(syms, c) matches Ok(e) ==> e.script == c.script && e.x == c.x && e.z == c.z && e.width == c.width
            && e.length == c.length && e.y == c.y && pt_u16(syms, c.value, "value"@) == Ok::<u16, Seq<char>>(e.value)
            && pt_opt_u16(syms, c.var, "var"@) == Ok::<u16, Seq<char>>(e.var),
{
    broadcast use vstd::array::group_array_axioms;
    if pt_object(syms, o, index) is Ok {
        let e = pt_object(syms, o, index)->Ok_0;
        assert(e.data@ =~= seq![data_slot(o.data@, 0), data_slot(o.data@, 1), data_slot(o.data@, 2)]);
    }
}

} // verus!
