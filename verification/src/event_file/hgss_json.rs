//! Event files in the HeartGold/SoulSilver decomp's JSON shape.
//!
//! Every field is a number or a string; a string is a constant, an
//! expression over constants, or a `std_trainer(..)` / `std_trainer_2(..)`
//! script macro. All fields of a record are resolved first, then checked
//! against their widths in the record's order. Heights are stored as they
//! are (no scaling, unlike Platinum).
use vstd::prelude::*;
use crate::c_parser::symbol_table::{SymbolTable, SymView, lookups_safe, lemma_lookups_safe, evaluated, evaluation_panics, resolved,
    starts_with};
use crate::error::{UxieError, invalid_data_text};
use crate::event_file::{BgEvent, ObjectEvent, WarpEvent, CoordEvent, EventFile};
use crate::event_file::values::{JsonValue, field_error_text, unknown_expr, out_of_range,
    field_error, out_of_range_error, unknown_expr_error, data_error, json_num, number_value};
use crate::results::{map_results, lemma_map_results_ok, lemma_map_results_step, lemma_map_results_stops,
    lemma_map_results_all_ok};
use crate::text::{chars_of, prefix_at, push_str, trim, trimmed, trim_bounds, string_of};

verus! {

/// HGSS background event.
#[derive(Debug, Clone, PartialEq, Eq)]
pub struct HgssBgEventJson {
    pub script_id: JsonValue,
    pub event_type: JsonValue,
    pub x: JsonValue,
    pub z: JsonValue,
    pub y: JsonValue,
    pub player_facing_dir: Option<JsonValue>,
}

/// HGSS object event.
#[derive(Debug, Clone, PartialEq, Eq)]
pub struct HgssObjectEventJson {
    pub id: JsonValue,
    pub sprite_id: JsonValue,
    pub movement: JsonValue,
    pub event_type: JsonValue,
    pub event_flag: JsonValue,
    pub script_id: JsonValue,
    pub facing_direction: JsonValue,
    pub param0: JsonValue,
    pub param1: JsonValue,
    pub param2: JsonValue,
    pub x_range: JsonValue,
    pub y_range: JsonValue,
    pub x: JsonValue,
    pub z: JsonValue,
    pub y: JsonValue,
}

/// HGSS warp event.
#[derive(Debug, Clone, PartialEq, Eq)]
pub struct HgssWarpEventJson {
    pub x: JsonValue,
    pub z: JsonValue,
    pub header: JsonValue,
    pub anchor: JsonValue,
    pub y: JsonValue,
}

/// HGSS coordinate event.
#[derive(Debug, Clone, PartialEq, Eq)]
pub struct HgssCoordEventJson {
    pub script_id: JsonValue,
    pub x: JsonValue,
    pub z: JsonValue,
    pub w: JsonValue,
    pub h: JsonValue,
    pub y: JsonValue,
    pub val: JsonValue,
    pub var: JsonValue,
}

/// A whole HGSS event file; `header` names the C header whose constants the
/// file's strings may use.
#[derive(Debug, Clone, PartialEq, Eq)]
pub struct HgssEventJson {
    pub header: Option<String>,
    pub bgs: Vec<HgssBgEventJson>,
    pub objects: Vec<HgssObjectEventJson>,
    pub warps: Vec<HgssWarpEventJson>,
    pub coords: Vec<HgssCoordEventJson>,
}

/// The integer types the binary fields have.
#[derive(Debug, Clone, Copy, PartialEq, Eq, Structural)]
pub enum Width {
    U16,
    I16,
    I32,
    U32,
}

pub open spec fn fits(w: Width, x: int) -> bool {
    match w {
        Width::U16 => 0 <= x <= 0xffff,
        Width::I16 => -0x8000 <= x <= 0x7fff,
        Width::I32 => -0x8000_0000 <= x <= 0x7fff_ffff,
        Width::U32 => 0 <= x <= 0xffff_ffff,
    }
}

pub open spec fn width_name(w: Width) -> Seq<char> {
    match w {
        Width::U16 => "u16"@,
        Width::I16 => "i16"@,
        Width::I32 => "i32"@,
        Width::U32 => "u32"@,
    }
}

/// The trimmed argument of `name(arg)`.
pub open spec fn macro_arg(expr: Seq<char>, name: Seq<char>) -> Option<Seq<char>> {
    let p = name + "("@;
    if starts_with(expr, p) && expr.len() > p.len() && expr.last() == ')' {
        Some(trim(expr.subrange(p.len() as int, expr.len() - 1)))
    } else {
        None
    }
}

/// The trainer, the first trainer index and the script base a trainer
/// macro is made of, where all three are known constants.
pub open spec fn macro_parts(syms: SymView, arg: Seq<char>, base: Seq<char>) -> Option<(i64, i64, i64)> {
    match (resolved(syms, arg), resolved(syms, "FIRST_TRAINER_INDEX"@), resolved(syms, base)) {
        (Some(t), Some(f), Some(b)) => Some((t, f, b)),
        _ => None,
    }
}

pub open spec fn trainer_parts(syms: SymView, expr: Seq<char>) -> Option<(i64, i64, i64)> {
    match macro_arg(expr, "std_trainer"@) {
        Some(arg) => macro_parts(syms, arg, "_std_npc_trainer"@),
        None => match macro_arg(expr, "std_trainer_2"@) {
            Some(arg) => macro_parts(syms, arg, "_std_npc_trainer_2"@),
            None => None,
        },
    }
}

/// `std_trainer(T)` is the script `T - FIRST_TRAINER_INDEX + _std_npc_trainer`
/// (`_std_npc_trainer_2` for `std_trainer_2`).
pub open spec fn trainer_macro_value(syms: SymView, expr: Seq<char>) -> Option<i64> {
    match trainer_parts(syms, expr) {
        Some((t, f, b)) => Some((t - f + b) as i64),
        None => None,
    }
}

/// The trainer macro's arithmetic would overflow.
pub open spec fn trainer_macro_panics(syms: SymView, expr: Seq<char>) -> bool {
    match trainer_parts(syms, expr) {
        Some((t, f, b)) => !(i64::MIN <= t - f <= i64::MAX && i64::MIN <= t - f + b <= i64::MAX),
        None => false,
    }
}

/// The integer a field value stands for.
pub open spec fn hg_i64(syms: SymView, v: JsonValue, field: Seq<char>) -> Result<i64, Seq<char>> {
    match v {
        JsonValue::Number(Some(n), _) => Ok(n),
        JsonValue::Number(None, t) => Err(field_error_text(field, "invalid number "@ + t@)),
        JsonValue::Text(s) => match trainer_macro_value(syms, trim(s@)) {
            Some(x) => Ok(x),
            None => match evaluated(syms, trim(s@)) {
                Some(x) => Ok(x),
                None => Err(unknown_expr(field, trim(s@))),
            },
        },
        JsonValue::Bool(b) => Err(field_error_text(field, "expected number or string, got "@
            + if b { "true"@ } else { "false"@ })),
        JsonValue::Other(t) => Err(field_error_text(field, "expected number or string, got "@ + t@)),
    }
}

/// A value whose string, if it has one, resolves without overflow.
pub open spec fn hg_safe(syms: SymView, v: JsonValue) -> bool {
    match v {
        JsonValue::Text(s) => !trainer_macro_panics(syms, trim(s@))
            && (trainer_macro_value(syms, trim(s@)) is None ==> !evaluation_panics(syms, trim(s@))),
        _ => true,
    }
}

pub open spec fn all_hg_safe(syms: SymView, s: Seq<JsonValue>) -> bool {
    forall|i: int| 0 <= i < s.len() ==> hg_safe(syms, #[trigger] s[i])
}

pub open spec fn resolve_step(syms: SymView, names: Seq<Seq<char>>) -> spec_fn(JsonValue, int) -> Result<i64, Seq<char>> {
    |v: JsonValue, i: int| hg_i64(syms, v, names[i])
}

pub open spec fn check_step(names: Seq<Seq<char>>, widths: Seq<Width>) -> spec_fn(i64, int) -> Result<i64, Seq<char>> {
    |x: i64, i: int| if fits(widths[i], x as int) {
        Ok(x)
    } else {
        Err(out_of_range(names[i], x, width_name(widths[i])))
    }
}

/// The fields of a record resolved, then checked against their widths.
pub open spec fn hg_record(syms: SymView, vals: Seq<JsonValue>, names: Seq<Seq<char>>, widths: Seq<Width>) -> Result<Seq<i64>, Seq<char>> {
    match map_results(vals, resolve_step(syms, names)) {
        Err(e) => Err(e),
        Ok(raws) => map_results(raws, check_step(names, widths)),
    }
}

pub open spec fn str_views(s: Seq<&str>) -> Seq<Seq<char>> {
    s.map_values(|t: &str| t@)
}

pub open spec fn bg_vals(b: HgssBgEventJson) -> Seq<JsonValue> {
    seq![b.script_id, b.event_type, b.x, b.z, b.y]
}

pub open spec fn bg_names() -> Seq<Seq<char>> {
    seq!["scriptId"@, "type"@, "x"@, "z"@, "y"@]
}

pub open spec fn bg_widths() -> Seq<Width> {
    seq![Width::U16, Width::U16, Width::I32, Width::I32, Width::I32]
}

/// An optional `u16` field, 0 where it is absent.
pub open spec fn hg_opt_u16(syms: SymView, o: Option<JsonValue>, field: Seq<char>) -> Result<u16, Seq<char>> {
    match o {
        None => Ok(0u16),
        Some(v) => match hg_i64(syms, v, field) {
            Err(e) => Err(e),
            Ok(x) => if fits(Width::U16, x as int) { Ok(x as u16) } else { Err(out_of_range(field, x, "u16"@)) },
        },
    }
}

/// A background event: its five fields resolved, then the facing direction
/// resolved and checked, then the five fields checked.
pub open spec fn hg_bg(syms: SymView, b: HgssBgEventJson) -> Result<BgEvent, Seq<char>> {
    match map_results(bg_vals(b), resolve_step(syms, bg_names())) {
        Err(e) => Err(e),
        Ok(raws) => match hg_opt_u16(syms, b.player_facing_dir, "playerFacingDir"@) {
            Err(e) => Err(e),
            Ok(d) => match map_results(raws, check_step(bg_names(), bg_widths())) {
                Err(e) => Err(e),
                Ok(r) => Ok(BgEvent {
                    script: r[0] as u16,
                    event_type: r[1] as u16,
                    x: r[2] as i32,
                    z: r[3] as i32,
                    y: r[4] as i32,
                    player_facing_dir: d,
                }),
            },
        },
    }
}

pub open spec fn obj_vals(o: HgssObjectEventJson) -> Seq<JsonValue> {
    seq![o.id, o.sprite_id, o.movement, o.event_type, o.event_flag, o.script_id,
        o.facing_direction, o.param0, o.param1, o.param2, o.x_range, o.y_range, o.x, o.z, o.y]
}

pub open spec fn obj_names() -> Seq<Seq<char>> {
    seq!["id"@, "spriteId"@, "movement"@, "type"@, "eventFlag"@, "scriptId"@,
        "facingDirection"@, "param0"@, "param1"@, "param2"@, "xRange"@, "yRange"@, "x"@, "z"@, "y"@]
}

pub open spec fn obj_widths() -> Seq<Width> {
    seq![Width::U16, Width::U16, Width::U16, Width::U16, Width::U16, Width::U16,
        Width::I16, Width::U16, Width::U16, Width::U16, Width::I16, Width::I16,
        Width::U16, Width::U16, Width::I32]
}

pub open spec fn hg_object(syms: SymView, o: HgssObjectEventJson) -> Result<ObjectEvent, Seq<char>> {
    match hg_record(syms, obj_vals(o), obj_names(), obj_widths()) {
        Err(e) => Err(e),
        Ok(r) => Ok(ObjectEvent {
            local_id: r[0] as u16,
            graphics_id: r[1] as u16,
            movement_type: r[2] as u16,
            trainer_type: r[3] as u16,
            hidden_flag: r[4] as u16,
            script: r[5] as u16,
            dir: r[6] as i16,
            data: [r[7] as u16, r[8] as u16, r[9] as u16],
            movement_range_x: r[10] as i16,
            movement_range_z: r[11] as i16,
            x: r[12] as u16,
            z: r[13] as u16,
            y: r[14] as i32,
        }),
    }
}

pub open spec fn warp_vals(w: HgssWarpEventJson) -> Seq<JsonValue> {
    seq![w.x, w.z, w.header, w.anchor, w.y]
}

pub open spec fn warp_names() -> Seq<Seq<char>> {
    seq!["x"@, "z"@, "header"@, "anchor"@, "y"@]
}

pub open spec fn warp_widths() -> Seq<Width> {
    seq![Width::U16, Width::U16, Width::U16, Width::U16, Width::U32]
}

pub open spec fn hg_warp(syms: SymView, w: HgssWarpEventJson) -> Result<WarpEvent, Seq<char>> {
    match hg_record(syms, warp_vals(w), warp_names(), warp_widths()) {
        Err(e) => Err(e),
        Ok(r) => Ok(WarpEvent {
            x: r[0] as u16,
            z: r[1] as u16,
            dest_header_id: r[2] as u16,
            dest_warp_id: r[3] as u16,
            height: r[4] as u32,
        }),
    }
}

pub open spec fn coord_vals(c: HgssCoordEventJson) -> Seq<JsonValue> {
    seq![c.script_id, c.x, c.z, c.w, c.h, c.y, c.val, c.var]
}

pub open spec fn coord_names() -> Seq<Seq<char>> {
    seq!["scriptId"@, "x"@, "z"@, "w"@, "h"@, "y"@, "val"@, "var"@]
}

pub open spec fn coord_widths() -> Seq<Width> {
    seq![Width::U16, Width::I16, Width::I16, Width::U16, Width::U16, Width::U16, Width::U16, Width::U16]
}

pub open spec fn hg_coord(syms: SymView, c: HgssCoordEventJson) -> Result<CoordEvent, Seq<char>> {
    match hg_record(syms, coord_vals(c), coord_names(), coord_widths()) {
        Err(e) => Err(e),
        Ok(r) => Ok(CoordEvent {
            script: r[0] as u16,
            x: r[1] as i16,
            z: r[2] as i16,
            width: r[3] as u16,
            length: r[4] as u16,
            y: r[5] as u16,
            value: r[6] as u16,
            var: r[7] as u16,
        }),
    }
}

pub open spec fn hg_bg_step(syms: SymView) -> spec_fn(HgssBgEventJson, int) -> Result<BgEvent, Seq<char>> {
    |b: HgssBgEventJson, i: int| hg_bg(syms, b)
}

pub open spec fn hg_object_step(syms: SymView) -> spec_fn(HgssObjectEventJson, int) -> Result<ObjectEvent, Seq<char>> {
    |o: HgssObjectEventJson, i: int| hg_object(syms, o)
}

pub open spec fn hg_warp_step(syms: SymView) -> spec_fn(HgssWarpEventJson, int) -> Result<WarpEvent, Seq<char>> {
    |w: HgssWarpEventJson, i: int| hg_warp(syms, w)
}

pub open spec fn hg_coord_step(syms: SymView) -> spec_fn(HgssCoordEventJson, int) -> Result<CoordEvent, Seq<char>> {
    |c: HgssCoordEventJson, i: int| hg_coord(syms, c)
}

/// The four event lists of an HGSS JSON file resolved against a table, in
/// file order: background events, objects, warps, then coordinate triggers.
pub open spec fn hgss_events(syms: SymView, j: HgssEventJson)
    -> Result<(Seq<BgEvent>, Seq<ObjectEvent>, Seq<WarpEvent>, Seq<CoordEvent>), Seq<char>>
{
    match map_results(j.bgs@, hg_bg_step(syms)) { Err(e) => Err(e), Ok(b) =>
    match map_results(j.objects@, hg_object_step(syms)) { Err(e) => Err(e), Ok(o) =>
    match map_results(j.warps@, hg_warp_step(syms)) { Err(e) => Err(e), Ok(w) =>
    match map_results(j.coords@, hg_coord_step(syms)) { Err(e) => Err(e), Ok(c) =>
        Ok((b, o, w, c))
    }}}}
}

pub open spec fn hg_bg_safe(syms: SymView, b: HgssBgEventJson) -> bool {
    all_hg_safe(syms, bg_vals(b)) && match b.player_facing_dir { Some(v) => hg_safe(syms, v), None => true }
}

/// No string of the file overflows the expression evaluator or a trainer
/// macro's arithmetic.
pub open spec fn hgss_json_safe(syms: SymView, j: HgssEventJson) -> bool {
    &&& forall|i: int| 0 <= i < j.bgs@.len() ==> hg_bg_safe(syms, #[trigger] j.bgs@[i])
    &&& forall|i: int| 0 <= i < j.objects@.len() ==> all_hg_safe(syms, obj_vals(#[trigger] j.objects@[i]))
    &&& forall|i: int| 0 <= i < j.warps@.len() ==> all_hg_safe(syms, warp_vals(#[trigger] j.warps@[i]))
    &&& forall|i: int| 0 <= i < j.coords@.len() ==> all_hg_safe(syms, coord_vals(#[trigger] j.coords@[i]))
}

pub open spec fn refs_view(s: Seq<&JsonValue>) -> Seq<JsonValue> {
    s.map_values(|v: &JsonValue| *v)
}

fn resolve_hgss_i64(table: &SymbolTable, value: &JsonValue, field: &str) -> (r: Result<i64, String>)
    requires
        lookups_safe(table.sv()),
        hg_safe(table.sv(), *value),
    ensures
        crate::event_file::values::text_result(r) == hg_i64(table.sv(), *value, field@),
{
    match value {
        JsonValue::Number(Some(n), _) => Ok(*n),
        JsonValue::Number(None, t) => {
            let mut m = String::from_str("invalid number ");
            push_str(&mut m, t.as_str());
            Err(field_error(field, m.as_str()))
        },
        JsonValue::Text(s) => {
            let e = trimmed(s.as_str());
            match try_expand_std_trainer_macro(table, e.as_str()) {
                Some(x) => Ok(x),
                None => match table.evaluate_expression(e.as_str()) {
                    Some(x) => Ok(x),
                    None => Err(unknown_expr_error(field, e.as_str())),
                },
            }
        },
        JsonValue::Bool(b) => {
            let mut m = String::from_str("expected number or string, got ");
            push_str(&mut m, if *b { "true" } else { "false" });
            Err(field_error(field, m.as_str()))
        },
        JsonValue::Other(t) => {
            let mut m = String::from_str("expected number or string, got ");
            push_str(&mut m, t.as_str());
            Err(field_error(field, m.as_str()))
        },
    }
}

/// The argument of `name(arg)`, trimmed.
fn macro_argument(expr: &str, name: &str) -> (r: Option<String>)
    ensures
        match macro_arg(expr@, name@) {
            Some(a) => r matches Some(s) && s@ == a,
            None => r is None,
        },
{
    let v = chars_of(expr);
    let n = v.len();
    let pv = chars_of(name);
    let k = pv.len();
    assert(v@.subrange(0, n as int) =~= expr@);
    let mut p = String::from_str(name);
    push_str(&mut p, "(");
    let ghost pat = name@ + "("@;
    proof { reveal_strlit("("); }
    assert(p@ == pat);
    if k >= n {
        return None;
    }
    if !prefix_at(&v, 0, n, p.as_str()) {
        return None;
    }
    if k + 1 >= n || v[n - 1] != ')' {
        assert(p@.len() == k + 1);
        return None;
    }
    assert(p@.len() == k + 1);
    let (a, z) = trim_bounds(&v, k + 1, n - 1);
    Some(string_of(&v, a, z))
}

fn try_expand_std_trainer_macro(table: &SymbolTable, expr: &str) -> (r: Option<i64>)
    requires
        lookups_safe(table.sv()),
        !trainer_macro_panics(table.sv(), expr@),
    ensures
        r == trainer_macro_value(table.sv(), expr@),
{
    let (arg, base) = match macro_argument(expr, "std_trainer") {
        Some(a) => (a, "_std_npc_trainer"),
        None => match macro_argument(expr, "std_trainer_2") {
            Some(a) => (a, "_std_npc_trainer_2"),
            None => return None,
        },
    };
    proof { lemma_lookups_safe(table.sv(), arg@); }
    let t = match table.resolve_constant(arg.as_str()) {
        Some(x) => x,
        None => return None,
    };
    proof { lemma_lookups_safe(table.sv(), "FIRST_TRAINER_INDEX"@); }
    let f = match table.resolve_constant("FIRST_TRAINER_INDEX") {
        Some(x) => x,
        None => return None,
    };
    proof { lemma_lookups_safe(table.sv(), base@); }
    let b = match table.resolve_constant(base) {
        Some(x) => x,
        None => return None,
    };
    Some(t - f + b)
}


/// Resolve each value under its field name; the first failure stops.
fn resolve_all(table: &SymbolTable, vals: &Vec<&JsonValue>, names: &Vec<&str>) -> (r: Result<Vec<i64>, String>)
    requires
        lookups_safe(table.sv()),
        vals@.len() == names@.len(),
        all_hg_safe(table.sv(), refs_view(vals@)),
    ensures
        match map_results(refs_view(vals@), resolve_step(table.sv(), str_views(names@))) {
            Ok(v) => r matches Ok(out) && out@ == v,
            Err(m) => r matches Err(e) && e@ == m,
        },
        r matches Ok(out) ==> out@.len() == vals@.len(),
{
    let ghost s = refs_view(vals@);
    let ghost f = resolve_step(table.sv(), str_views(names@));
    let mut out: Vec<i64> = Vec::new();
    let mut i: usize = 0;
    while i < vals.len()
        invariant
            lookups_safe(table.sv()),
            i <= vals@.len() == names@.len(),
            s == refs_view(vals@),
            f == resolve_step(table.sv(), str_views(names@)),
            all_hg_safe(table.sv(), s),
            out@.len() == i,
            map_results(s.take(i as int), f) == Ok::<Seq<i64>, Seq<char>>(out@),
        decreases vals@.len() - i,
    {
        proof {
            lemma_map_results_step(s, i as int, f);
            assert(s[i as int] == *vals@[i as int]);
            assert(str_views(names@)[i as int] == names@[i as int]@);
            assert(hg_safe(table.sv(), s[i as int]));
        }
        match resolve_hgss_i64(table, vals[i], names[i]) {
            Ok(x) => out.push(x),
            Err(e) => {
                proof { lemma_map_results_stops(s, i as int, f); }
                return Err(e);
            },
        }
        i = i + 1;
    }
    assert(s.take(vals@.len() as int) =~= s);
    Ok(out)
}

/// Check each value against its width; the first misfit stops.
fn check_all(raws: &Vec<i64>, names: &Vec<&str>, widths: &Vec<Width>) -> (r: Result<Vec<i64>, String>)
    requires
        raws@.len() == names@.len() == widths@.len(),
    ensures
        match map_results(raws@, check_step(str_views(names@), widths@)) {
            Ok(v) => r matches Ok(out) && out@ == v,
            Err(m) => r matches Err(e) && e@ == m,
        },
        r matches Ok(out) ==> out@.len() == raws@.len(),
{
    let ghost f = check_step(str_views(names@), widths@);
    let mut out: Vec<i64> = Vec::new();
    let mut i: usize = 0;
    while i < raws.len()
        invariant
            i <= raws@.len() == names@.len() == widths@.len(),
            f == check_step(str_views(names@), widths@),
            out@.len() == i,
            map_results(raws@.take(i as int), f) == Ok::<Seq<i64>, Seq<char>>(out@),
        decreases raws@.len() - i,
    {
        proof {
            lemma_map_results_step(raws@, i as int, f);
            assert(str_views(names@)[i as int] == names@[i as int]@);
        }
        let x = raws[i];
        let ok = match widths[i] {
            Width::U16 => 0 <= x && x <= 0xffff,
            Width::I16 => -0x8000 <= x && x <= 0x7fff,
            Width::I32 => -0x8000_0000 <= x && x <= 0x7fff_ffff,
            Width::U32 => 0 <= x && x <= 0xffff_ffff,
        };
        if ok {
            out.push(x);
        } else {
            let ty = match widths[i] {
                Width::U16 => "u16",
                Width::I16 => "i16",
                Width::I32 => "i32",
                Width::U32 => "u32",
            };
            proof { lemma_map_results_stops(raws@, i as int, f); }
            return Err(out_of_range_error(names[i], x, ty));
        }
        i = i + 1;
    }
    assert(raws@.take(raws@.len() as int) =~= raws@);
    Ok(out)
}

fn resolve_record(table: &SymbolTable, vals: &Vec<&JsonValue>, names: &Vec<&str>, widths: &Vec<Width>) -> (r: Result<Vec<i64>, String>)
    requires
        lookups_safe(table.sv()),
        vals@.len() == names@.len() == widths@.len(),
        all_hg_safe(table.sv(), refs_view(vals@)),
    ensures
        match hg_record(table.sv(), refs_view(vals@), str_views(names@), widths@) {
            Ok(v) => r matches Ok(out) && out@ == v,
            Err(m) => r matches Err(e) && e@ == m,
        },
        r matches Ok(out) ==> out@.len() == vals@.len(),
{
    let raws = match resolve_all(table, vals, names) {
        Ok(v) => v,
        Err(e) => return Err(e),
    };
    check_all(&raws, names, widths)
}

fn parse_hgss_bg(bg: &HgssBgEventJson, table: &SymbolTable) -> (r: Result<BgEvent, String>)
    requires
        lookups_safe(table.sv()),
        all_hg_safe(table.sv(), bg_vals(*bg)),
        match bg.player_facing_dir { Some(v) => hg_safe(table.sv(), v), None => true },
    ensures
        crate::event_file::values::text_result(r) == hg_bg(table.sv(), *bg),
{
    let vals: Vec<&JsonValue> = vec![&bg.script_id, &bg.event_type, &bg.x, &bg.z, &bg.y];
    let names: Vec<&str> = vec!["scriptId", "type", "x", "z", "y"];
    let widths: Vec<Width> = vec![Width::U16, Width::U16, Width::I32, Width::I32, Width::I32];
    assert(refs_view(vals@) =~= bg_vals(*bg));
    assert(str_views(names@) =~= bg_names());
    assert(widths@ =~= bg_widths());
    let raws = match resolve_all(table, &vals, &names) {
        Ok(v) => v,
        Err(e) => return Err(e),
    };
    let player_facing_dir: u16 = match &bg.player_facing_dir {
        None => 0,
        Some(dir) => {
            let raw = match resolve_hgss_i64(table, dir, "playerFacingDir") {
                Ok(x) => x,
                Err(e) => return Err(e),
            };
            if 0 <= raw && raw <= 0xffff {
                raw as u16
            } else {
                return Err(out_of_range_error("playerFacingDir", raw, "u16"));
            }
        },
    };
    let r = match check_all(&raws, &names, &widths) {
        Ok(v) => v,
        Err(e) => return Err(e),
    };
    Ok(BgEvent {
        script: r[0] as u16,
        event_type: r[1] as u16,
        x: r[2] as i32,
        z: r[3] as i32,
        y: r[4] as i32,
        player_facing_dir,
    })
}

#[verifier::spinoff_prover]
fn parse_hgss_object(obj: &HgssObjectEventJson, table: &SymbolTable) -> (r: Result<ObjectEvent, String>)
    requires
        lookups_safe(table.sv()),
        all_hg_safe(table.sv(), obj_vals(*obj)),
    ensures
        crate::event_file::values::text_result(r) == hg_object(table.sv(), *obj),
{
    let vals: Vec<&JsonValue> = vec![&obj.id, &obj.sprite_id, &obj.movement, &obj.event_type,
        &obj.event_flag, &obj.script_id, &obj.facing_direction, &obj.param0, &obj.param1,
        &obj.param2, &obj.x_range, &obj.y_range, &obj.x, &obj.z, &obj.y];
    let names: Vec<&str> = vec!["id", "spriteId", "movement", "type", "eventFlag", "scriptId",
        "facingDirection", "param0", "param1", "param2", "xRange", "yRange", "x", "z", "y"];
    let widths: Vec<Width> = vec![Width::U16, Width::U16, Width::U16, Width::U16, Width::U16,
        Width::U16, Width::I16, Width::U16, Width::U16, Width::U16, Width::I16, Width::I16,
        Width::U16, Width::U16, Width::I32];
    assert(refs_view(vals@) =~= obj_vals(*obj));
    assert(str_views(names@) =~= obj_names());
    assert(widths@ =~= obj_widths());
    let r = match resolve_record(table, &vals, &names, &widths) {
        Ok(v) => v,
        Err(e) => return Err(e),
    };
    Ok(ObjectEvent {
        local_id: r[0] as u16,
        graphics_id: r[1] as u16,
        movement_type: r[2] as u16,
        trainer_type: r[3] as u16,
        hidden_flag: r[4] as u16,
        script: r[5] as u16,
        dir: r[6] as i16,
        data: [r[7] as u16, r[8] as u16, r[9] as u16],
        movement_range_x: r[10] as i16,
        movement_range_z: r[11] as i16,
        x: r[12] as u16,
        z: r[13] as u16,
        y: r[14] as i32,
    })
}

fn parse_hgss_warp(warp: &HgssWarpEventJson, table: &SymbolTable) -> (r: Result<WarpEvent, String>)
    requires
        lookups_safe(table.sv()),
        all_hg_safe(table.sv(), warp_vals(*warp)),
    ensures
        crate::event_file::values::text_result(r) == hg_warp(table.sv(), *warp),
{
    let vals: Vec<&JsonValue> = vec![&warp.x, &warp.z, &warp.header, &warp.anchor, &warp.y];
    let names: Vec<&str> = vec!["x", "z", "header", "anchor", "y"];
    let widths: Vec<Width> = vec![Width::U16, Width::U16, Width::U16, Width::U16, Width::U32];
    assert(refs_view(vals@) =~= warp_vals(*warp));
    assert(str_views(names@) =~= warp_names());
    assert(widths@ =~= warp_widths());
    let r = match resolve_record(table, &vals, &names, &widths) {
        Ok(v) => v,
        Err(e) => return Err(e),
    };
    Ok(WarpEvent {
        x: r[0] as u16,
        z: r[1] as u16,
        dest_header_id: r[2] as u16,
        dest_warp_id: r[3] as u16,
        height: r[4] as u32,
    })
}

fn parse_hgss_coord(coord: &HgssCoordEventJson, table: &SymbolTable) -> (r: Result<CoordEvent, String>)
    requires
        lookups_safe(table.sv()),
        all_hg_safe(table.sv(), coord_vals(*coord)),
    ensures
        crate::event_file::values::text_result(r) == hg_coord(table.sv(), *coord),
{
    let vals: Vec<&JsonValue> = vec![&coord.script_id, &coord.x, &coord.z, &coord.w, &coord.h,
        &coord.y, &coord.val, &coord.var];
    let names: Vec<&str> = vec!["scriptId", "x", "z", "w", "h", "y", "val", "var"];
    let widths: Vec<Width> = vec![Width::U16, Width::I16, Width::I16, Width::U16, Width::U16,
        Width::U16, Width::U16, Width::U16];
    assert(refs_view(vals@) =~= coord_vals(*coord));
    assert(str_views(names@) =~= coord_names());
    assert(widths@ =~= coord_widths());
    let r = match resolve_record(table, &vals, &names, &widths) {
        Ok(v) => v,
        Err(e) => return Err(e),
    };
    Ok(CoordEvent {
        script: r[0] as u16,
        x: r[1] as i16,
        z: r[2] as i16,
        width: r[3] as u16,
        length: r[4] as u16,
        y: r[5] as u16,
        value: r[6] as u16,
        var: r[7] as u16,
    })
}


fn parse_hgss_bgs(list: &Vec<HgssBgEventJson>, table: &SymbolTable) -> (r: Result<Vec<BgEvent>, String>)
    requires
        lookups_safe(table.sv()),
        forall|i: int| 0 <= i < list@.len() ==> hg_bg_safe(table.sv(), #[trigger] list@[i]),
    ensures
        match map_results(list@, hg_bg_step(table.sv())) {
            Ok(v) => r matches Ok(out) && out@ == v,
            Err(m) => r matches Err(e) && e@ == m,
        },
{
    let mut out: Vec<BgEvent> = Vec::new();
    let mut i: usize = 0;
    while i < list.len()
        invariant
            lookups_safe(table.sv()),
            i <= list@.len(),
            forall|k: int| 0 <= k < list@.len() ==> hg_bg_safe(table.sv(), #[trigger] list@[k]),
            map_results(list@.take(i as int), hg_bg_step(table.sv())) == Ok::<Seq<BgEvent>, Seq<char>>(out@),
        decreases list@.len() - i,
    {
        proof { lemma_map_results_step(list@, i as int, hg_bg_step(table.sv())); }
        match parse_hgss_bg(&list[i], table) {
            Ok(b) => out.push(b),
            Err(e) => {
                proof { lemma_map_results_stops(list@, i as int, hg_bg_step(table.sv())); }
                return Err(e);
            },
        }
        i = i + 1;
    }
    assert(list@.take(list@.len() as int) =~= list@);
    Ok(out)
}

fn parse_hgss_objects(list: &Vec<HgssObjectEventJson>, table: &SymbolTable) -> (r: Result<Vec<ObjectEvent>, String>)
    requires
        lookups_safe(table.sv()),
        forall|i: int| 0 <= i < list@.len() ==> all_hg_safe(table.sv(), obj_vals(#[trigger] list@[i])),
    ensures
        match map_results(list@, hg_object_step(table.sv())) {
            Ok(v) => r matches Ok(out) && out@ == v,
            Err(m) => r matches Err(e) && e@ == m,
        },
{
    let mut out: Vec<ObjectEvent> = Vec::new();
    let mut i: usize = 0;
    while i < list.len()
        invariant
            lookups_safe(table.sv()),
            i <= list@.len(),
            forall|k: int| 0 <= k < list@.len() ==> all_hg_safe(table.sv(), obj_vals(#[trigger] list@[k])),
            map_results(list@.take(i as int), hg_object_step(table.sv())) == Ok::<Seq<ObjectEvent>, Seq<char>>(out@),
        decreases list@.len() - i,
    {
        proof { lemma_map_results_step(list@, i as int, hg_object_step(table.sv())); }
        match parse_hgss_object(&list[i], table) {
            Ok(b) => out.push(b),
            Err(e) => {
                proof { lemma_map_results_stops(list@, i as int, hg_object_step(table.sv())); }
                return Err(e);
            },
        }
        i = i + 1;
    }
    assert(list@.take(list@.len() as int) =~= list@);
    Ok(out)
}

fn parse_hgss_warps(list: &Vec<HgssWarpEventJson>, table: &SymbolTable) -> (r: Result<Vec<WarpEvent>, String>)
    requires
        lookups_safe(table.sv()),
        forall|i: int| 0 <= i < list@.len() ==> all_hg_safe(table.sv(), warp_vals(#[trigger] list@[i])),
    ensures
        match map_results(list@, hg_warp_step(table.sv())) {
            Ok(v) => r matches Ok(out) && out@ == v,
            Err(m) => r matches Err(e) && e@ == m,
        },
{
    let mut out: Vec<WarpEvent> = Vec::new();
    let mut i: usize = 0;
    while i < list.len()
        invariant
            lookups_safe(table.sv()),
            i <= list@.len(),
            forall|k: int| 0 <= k < list@.len() ==> all_hg_safe(table.sv(), warp_vals(#[trigger] list@[k])),
            map_results(list@.take(i as int), hg_warp_step(table.sv())) == Ok::<Seq<WarpEvent>, Seq<char>>(out@),
        decreases list@.len() - i,
    {
        proof { lemma_map_results_step(list@, i as int, hg_warp_step(table.sv())); }
        match parse_hgss_warp(&list[i], table) {
            Ok(b) => out.push(b),
            Err(e) => {
                proof { lemma_map_results_stops(list@, i as int, hg_warp_step(table.sv())); }
                return Err(e);
            },
        }
        i = i + 1;
    }
    assert(list@.take(list@.len() as int) =~= list@);
    Ok(out)
}

fn parse_hgss_coords(list: &Vec<HgssCoordEventJson>, table: &SymbolTable) -> (r: Result<Vec<CoordEvent>, String>)
    requires
        lookups_safe(table.sv()),
        forall|i: int| 0 <= i < list@.len() ==> all_hg_safe(table.sv(), coord_vals(#[trigger] list@[i])),
    ensures
        match map_results(list@, hg_coord_step(table.sv())) {
            Ok(v) => r matches Ok(out) && out@ == v,
            Err(m) => r matches Err(e) && e@ == m,
        },
{
    let mut out: Vec<CoordEvent> = Vec::new();
    let mut i: usize = 0;
    while i < list.len()
        invariant
            lookups_safe(table.sv()),
            i <= list@.len(),
            forall|k: int| 0 <= k < list@.len() ==> all_hg_safe(table.sv(), coord_vals(#[trigger] list@[k])),
            map_results(list@.take(i as int), hg_coord_step(table.sv())) == Ok::<Seq<CoordEvent>, Seq<char>>(out@),
        decreases list@.len() - i,
    {
        proof { lemma_map_results_step(list@, i as int, hg_coord_step(table.sv())); }
        match parse_hgss_coord(&list[i], table) {
            Ok(b) => out.push(b),
            Err(e) => {
                proof { lemma_map_results_stops(list@, i as int, hg_coord_step(table.sv())); }
                return Err(e);
            },
        }
        i = i + 1;
    }
    assert(list@.take(list@.len() as int) =~= list@);
    Ok(out)
}

impl EventFile {
    /// Resolve an event file from its HGSS JSON form against `table`: the
    /// shared constants together with those of the file's header, which the
    /// caller loads. The first bad value gives an `InvalidData` error.
    pub fn from_hgss_json(json: &HgssEventJson, table: &SymbolTable) -> (r: Result<EventFile, UxieError>)
        requires
            lookups_safe(table.sv()),
            hgss_json_safe(table.sv(), *json),
        ensures
            match hgss_events(table.sv(), *json) {
                Ok((b, o, w, c)) => r matches Ok(f) && f.bg_events@ == b && f.object_events@ == o
                    && f.warp_events@ == w && f.coord_events@ == c,
                Err(m) => r matches Err(e) && invalid_data_text(e) == Some(m),
            },
    {
        let bg_events = match parse_hgss_bgs(&json.bgs, table) {
            Ok(v) => v,
            Err(m) => return Err(data_error(m)),
        };
        let object_events = match parse_hgss_objects(&json.objects, table) {
            Ok(v) => v,
            Err(m) => return Err(data_error(m)),
        };
        let warp_events = match parse_hgss_warps(&json.warps, table) {
            Ok(v) => v,
            Err(m) => return Err(data_error(m)),
        };
        let coord_events = match parse_hgss_coords(&json.coords, table) {
            Ok(v) => v,
            Err(m) => return Err(data_error(m)),
        };
        Ok(EventFile { bg_events, object_events, warp_events, coord_events })
    }
}


// ----- writing the JSON form -----

pub open spec fn hg_emitted_bg(b: BgEvent, j: HgssBgEventJson) -> bool {
    &&& json_num(j.script_id, b.script as int) && json_num(j.event_type, b.event_type as int)
    &&& json_num(j.x, b.x as int) && json_num(j.z, b.z as int) && json_num(j.y, b.y as int)
    &&& if b.player_facing_dir == 0 {
        j.player_facing_dir is None
    } else {
        j.player_facing_dir matches Some(v) && json_num(v, b.player_facing_dir as int)
    }
}

pub open spec fn hg_emitted_object(o: ObjectEvent, j: HgssObjectEventJson) -> bool {
    &&& json_num(j.id, o.local_id as int) && json_num(j.sprite_id, o.graphics_id as int)
    &&& json_num(j.movement, o.movement_type as int) && json_num(j.event_type, o.trainer_type as int)
    &&& json_num(j.event_flag, o.hidden_flag as int) && json_num(j.script_id, o.script as int)
    &&& json_num(j.facing_direction, o.dir as int)
    &&& json_num(j.param0, o.data@[0] as int) && json_num(j.param1, o.data@[1] as int)
    &&& json_num(j.param2, o.data@[2] as int)
    &&& json_num(j.x_range, o.movement_range_x as int) && json_num(j.y_range, o.movement_range_z as int)
    &&& json_num(j.x, o.x as int) && json_num(j.z, o.z as int) && json_num(j.y, o.y as int)
}

pub open spec fn hg_emitted_warp(w: WarpEvent, j: HgssWarpEventJson) -> bool {
    &&& json_num(j.x, w.x as int) && json_num(j.z, w.z as int)
    &&& json_num(j.header, w.dest_header_id as int) && json_num(j.anchor, w.dest_warp_id as int)
    &&& json_num(j.y, w.height as int)
}

pub open spec fn hg_emitted_coord(c: CoordEvent, j: HgssCoordEventJson) -> bool {
    &&& json_num(j.script_id, c.script as int) && json_num(j.x, c.x as int) && json_num(j.z, c.z as int)
    &&& json_num(j.w, c.width as int) && json_num(j.h, c.length as int) && json_num(j.y, c.y as int)
    &&& json_num(j.val, c.value as int) && json_num(j.var, c.var as int)
}

/// `j` is the HGSS JSON written for `f`, naming `header`.
pub open spec fn hgss_emitted(f: EventFile, header: Option<String>, j: HgssEventJson) -> bool {
    &&& j.header == header
    &&& j.bgs@.len() == f.bg_events@.len()
    &&& forall|i: int| 0 <= i < f.bg_events@.len() ==> hg_emitted_bg(#[trigger] f.bg_events@[i], j.bgs@[i])
    &&& j.objects@.len() == f.object_events@.len()
    &&& forall|i: int| 0 <= i < f.object_events@.len() ==> hg_emitted_object(#[trigger] f.object_events@[i], j.objects@[i])
    &&& j.warps@.len() == f.warp_events@.len()
    &&& forall|i: int| 0 <= i < f.warp_events@.len() ==> hg_emitted_warp(#[trigger] f.warp_events@[i], j.warps@[i])
    &&& j.coords@.len() == f.coord_events@.len()
    &&& forall|i: int| 0 <= i < f.coord_events@.len() ==> hg_emitted_coord(#[trigger] f.coord_events@[i], j.coords@[i])
}

fn emit_hgss_bg(bg: &BgEvent) -> (j: HgssBgEventJson)
    ensures
        hg_emitted_bg(*bg, j),
{
    HgssBgEventJson {
        script_id: number_value(bg.script as i64),
        event_type: number_value(bg.event_type as i64),
        x: number_value(bg.x as i64),
        z: number_value(bg.z as i64),
        y: number_value(bg.y as i64),
        player_facing_dir: if bg.player_facing_dir != 0 {
            Some(number_value(bg.player_facing_dir as i64))
        } else {
            None
        },
    }
}

fn emit_hgss_object(obj: &ObjectEvent) -> (j: HgssObjectEventJson)
    ensures
        hg_emitted_object(*obj, j),
{
    HgssObjectEventJson {
        id: number_value(obj.local_id as i64),
        sprite_id: number_value(obj.graphics_id as i64),
        movement: number_value(obj.movement_type as i64),
        event_type: number_value(obj.trainer_type as i64),
        event_flag: number_value(obj.hidden_flag as i64),
        script_id: number_value(obj.script as i64),
        facing_direction: number_value(obj.dir as i64),
        param0: number_value(obj.data[0] as i64),
        param1: number_value(obj.data[1] as i64),
        param2: number_value(obj.data[2] as i64),
        x_range: number_value(obj.movement_range_x as i64),
        y_range: number_value(obj.movement_range_z as i64),
        x: number_value(obj.x as i64),
        z: number_value(obj.z as i64),
        y: number_value(obj.y as i64),
    }
}

fn emit_hgss_warp(warp: &WarpEvent) -> (j: HgssWarpEventJson)
    ensures
        hg_emitted_warp(*warp, j),
{
    HgssWarpEventJson {
        x: number_value(warp.x as i64),
        z: number_value(warp.z as i64),
        header: number_value(warp.dest_header_id as i64),
        anchor: number_value(warp.dest_warp_id as i64),
        y: number_value(warp.height as i64),
    }
}

fn emit_hgss_coord(coord: &CoordEvent) -> (j: HgssCoordEventJson)
    ensures
        hg_emitted_coord(*coord, j),
{
    HgssCoordEventJson {
        script_id: number_value(coord.script as i64),
        x: number_value(coord.x as i64),
        z: number_value(coord.z as i64),
        w: number_value(coord.width as i64),
        h: number_value(coord.length as i64),
        y: number_value(coord.y as i64),
        val: number_value(coord.value as i64),
        var: number_value(coord.var as i64),
    }
}

impl EventFile {
    /// The HGSS JSON form of an event file, naming `header`. No constant
    /// family of the table covers sprites, flags, maps or variables, so
    /// every value is written as a number.
    pub fn to_hgss_json(&self, _symbols: &SymbolTable, header: Option<String>) -> (j: HgssEventJson)
        ensures
            hgss_emitted(*self, header, j),
    {
        let mut bgs: Vec<HgssBgEventJson> = Vec::new();
        let mut i: usize = 0;
        while i < self.bg_events.len()
            invariant
                i <= self.bg_events@.len(),
                bgs@.len() == i,
                forall|k: int| 0 <= k < i ==> hg_emitted_bg(#[trigger] self.bg_events@[k], bgs@[k]),
            decreases self.bg_events@.len() - i,
        {
            bgs.push(emit_hgss_bg(&self.bg_events[i]));
            i = i + 1;
        }
        let mut objects: Vec<HgssObjectEventJson> = Vec::new();
        let mut i: usize = 0;
        while i < self.object_events.len()
            invariant
                i <= self.object_events@.len(),
                objects@.len() == i,
                forall|k: int| 0 <= k < i ==> hg_emitted_object(#[trigger] self.object_events@[k], objects@[k]),
            decreases self.object_events@.len() - i,
        {
            objects.push(emit_hgss_object(&self.object_events[i]));
            i = i + 1;
        }
        let mut warps: Vec<HgssWarpEventJson> = Vec::new();
        let mut i: usize = 0;
        while i < self.warp_events.len()
            invariant
                i <= self.warp_events@.len(),
                warps@.len() == i,
                forall|k: int| 0 <= k < i ==> hg_emitted_warp(#[trigger] self.warp_events@[k], warps@[k]),
            decreases self.warp_events@.len() - i,
        {
            warps.push(emit_hgss_warp(&self.warp_events[i]));
            i = i + 1;
        }
        let mut coords: Vec<HgssCoordEventJson> = Vec::new();
        let mut i: usize = 0;
        while i < self.coord_events.len()
            invariant
                i <= self.coord_events@.len(),
                coords@.len() == i,
                forall|k: int| 0 <= k < i ==> hg_emitted_coord(#[trigger] self.coord_events@[k], coords@[k]),
            decreases self.coord_events@.len() - i,
        {
            coords.push(emit_hgss_coord(&self.coord_events[i]));
            i = i + 1;
        }
        HgssEventJson { header, bgs, objects, warps, coords }
    }
}

// ----- reading back what was written -----

/// A record of numbers that fit their widths reads back as those numbers.
proof fn lemma_record_of_numbers(syms: SymView, vals: Seq<JsonValue>, names: Seq<Seq<char>>, widths: Seq<Width>, raws: Seq<i64>)
    requires
        vals.len() == names.len() == widths.len() == raws.len(),
        forall|i: int| 0 <= i < vals.len() ==> json_num(#[trigger] vals[i], raws[i] as int),
        forall|i: int| 0 <= i < raws.len() ==> fits(widths[i], #[trigger] raws[i] as int),
    ensures
        map_results(vals, resolve_step(syms, names)) == Ok::<Seq<i64>, Seq<char>>(raws),
        map_results(raws, check_step(names, widths)) == Ok::<Seq<i64>, Seq<char>>(raws),
        hg_record(syms, vals, names, widths) == Ok::<Seq<i64>, Seq<char>>(raws),
{
    assert forall|i: int| 0 <= i < vals.len() implies (resolve_step(syms, names))(#[trigger] vals[i], i)
        == Ok::<i64, Seq<char>>(raws[i]) by {
        assert(json_num(vals[i], raws[i] as int));
    }
    lemma_map_results_all_ok(vals, resolve_step(syms, names), raws);
    assert forall|i: int| 0 <= i < raws.len() implies (check_step(names, widths))(#[trigger] raws[i], i)
        == Ok::<i64, Seq<char>>(raws[i]) by {
        assert(fits(widths[i], raws[i] as int));
    }
    lemma_map_results_all_ok(raws, check_step(names, widths), raws);
}

proof fn lemma_hg_bg_round_trip(syms: SymView, b: BgEvent, j: HgssBgEventJson)
    requires
        hg_emitted_bg(b, j),
    ensures
        hg_bg(syms, j) == Ok::<BgEvent, Seq<char>>(b),
{
    let raws = seq![b.script as i64, b.event_type as i64, b.x as i64, b.z as i64, b.y as i64];
    assert forall|i: int| 0 <= i < 5 implies json_num(#[trigger] bg_vals(j)[i], raws[i] as int) by {}
    assert forall|i: int| 0 <= i < 5 implies fits(bg_widths()[i], #[trigger] raws[i] as int) by {}
    lemma_record_of_numbers(syms, bg_vals(j), bg_names(), bg_widths(), raws);
}

proof fn lemma_hg_object_round_trip(syms: SymView, o: ObjectEvent, j: HgssObjectEventJson)
    requires
        hg_emitted_object(o, j),
    ensures
        hg_object(syms, j) == Ok::<ObjectEvent, Seq<char>>(o),
{
    let raws = seq![o.local_id as i64, o.graphics_id as i64, o.movement_type as i64, o.trainer_type as i64,
        o.hidden_flag as i64, o.script as i64, o.dir as i64, o.data@[0] as i64, o.data@[1] as i64,
        o.data@[2] as i64, o.movement_range_x as i64, o.movement_range_z as i64, o.x as i64, o.z as i64,
        o.y as i64];
    assert forall|i: int| 0 <= i < 15 implies json_num(#[trigger] obj_vals(j)[i], raws[i] as int) by {}
    assert forall|i: int| 0 <= i < 15 implies fits(obj_widths()[i], #[trigger] raws[i] as int) by {}
    lemma_record_of_numbers(syms, obj_vals(j), obj_names(), obj_widths(), raws);
    let p = hg_object(syms, j);
    assert(p matches Ok(r) && r.data@ =~= o.data@);
    assert(p matches Ok(r) && r.data =~= o.data);
}

proof fn lemma_hg_warp_round_trip(syms: SymView, w: WarpEvent, j: HgssWarpEventJson)
    requires
        hg_emitted_warp(w, j),
    ensures
        hg_warp(syms, j) == Ok::<WarpEvent, Seq<char>>(w),
{
    let raws = seq![w.x as i64, w.z as i64, w.dest_header_id as i64, w.dest_warp_id as i64, w.height as i64];
    assert forall|i: int| 0 <= i < 5 implies json_num(#[trigger] warp_vals(j)[i], raws[i] as int) by {}
    assert forall|i: int| 0 <= i < 5 implies fits(warp_widths()[i], #[trigger] raws[i] as int) by {}
    lemma_record_of_numbers(syms, warp_vals(j), warp_names(), warp_widths(), raws);
}

proof fn lemma_hg_coord_round_trip(syms: SymView, c: CoordEvent, j: HgssCoordEventJson)
    requires
        hg_emitted_coord(c, j),
    ensures
        hg_coord(syms, j) == Ok::<CoordEvent, Seq<char>>(c),
{
    let raws = seq![c.script as i64, c.x as i64, c.z as i64, c.width as i64, c.length as i64, c.y as i64,
        c.value as i64, c.var as i64];
    assert forall|i: int| 0 <= i < 8 implies json_num(#[trigger] coord_vals(j)[i], raws[i] as int) by {}
    assert forall|i: int| 0 <= i < 8 implies fits(coord_widths()[i], #[trigger] raws[i] as int) by {}
    lemma_record_of_numbers(syms, coord_vals(j), coord_names(), coord_widths(), raws);
}

/// Reading the HGSS JSON written for an event file gives the file back,
/// whatever the table.
pub proof fn lemma_hgss_json_round_trip(syms: SymView, f: EventFile, header: Option<String>, j: HgssEventJson)
    requires
        hgss_emitted(f, header, j),
    ensures
        hgss_events(syms, j) == Ok::<(Seq<BgEvent>, Seq<ObjectEvent>, Seq<WarpEvent>, Seq<CoordEvent>), Seq<char>>(
            (f.bg_events@, f.object_events@, f.warp_events@, f.coord_events@),
        ),
{
    assert forall|i: int| 0 <= i < j.bgs@.len() implies (hg_bg_step(syms))(#[trigger] j.bgs@[i], i)
        == Ok::<BgEvent, Seq<char>>(f.bg_events@[i]) by {
        lemma_hg_bg_round_trip(syms, f.bg_events@[i], j.bgs@[i]);
    }
    lemma_map_results_all_ok(j.bgs@, hg_bg_step(syms), f.bg_events@);
    assert forall|i: int| 0 <= i < j.objects@.len() implies (hg_object_step(syms))(#[trigger] j.objects@[i], i)
        == Ok::<ObjectEvent, Seq<char>>(f.object_events@[i]) by {
        lemma_hg_object_round_trip(syms, f.object_events@[i], j.objects@[i]);
    }
    lemma_map_results_all_ok(j.objects@, hg_object_step(syms), f.object_events@);
    assert forall|i: int| 0 <= i < j.warps@.len() implies (hg_warp_step(syms))(#[trigger] j.warps@[i], i)
        == Ok::<WarpEvent, Seq<char>>(f.warp_events@[i]) by {
        lemma_hg_warp_round_trip(syms, f.warp_events@[i], j.warps@[i]);
    }
    lemma_map_results_all_ok(j.warps@, hg_warp_step(syms), f.warp_events@);
    assert forall|i: int| 0 <= i < j.coords@.len() implies (hg_coord_step(syms))(#[trigger] j.coords@[i], i)
        == Ok::<CoordEvent, Seq<char>>(f.coord_events@[i]) by {
        lemma_hg_coord_round_trip(syms, f.coord_events@[i], j.coords@[i]);
    }
    lemma_map_results_all_ok(j.coords@, hg_coord_step(syms), f.coord_events@);
}



/// Law: reading a HeartGold/SoulSilver JSON event takes each field from the
/// JSON field it is named after, resolved: a background event's script from
/// `scriptId`, type from `type`, x, z and y from `x`, `z` and `y`, and facing
/// direction from `playerFacingDir` (0 when absent).
#[verifier::spinoff_prover]
#[verifier::rlimit(60)]
pub proof fn hgss_bg_fields(syms: SymView, b: HgssBgEventJson)
    ensures
        hg_bg(syms, b) matches Ok(e) ==> hg_i64(syms, b.script_id, "scriptId"@) == Ok::<i64, Seq<char>>(e.script as i64)
            && hg_i64(syms, b.event_type, "type"@) == Ok::<i64, Seq<char>>(e.event_type as i64)
            && hg_i64(syms, b.x, "x"@) == Ok::<i64, Seq<char>>(e.x as i64)
            && hg_i64(syms, b.z, "z"@) == Ok::<i64, Seq<char>>(e.z as i64)
            && hg_i64(syms, b.y, "y"@) == Ok::<i64, Seq<char>>(e.y as i64)
            && hg_opt_u16(syms, b.player_facing_dir, "playerFacingDir"@) == Ok::<u16, Seq<char>>(e.player_facing_dir),
{
    broadcast use vstd::array::group_array_axioms;
    if hg_bg(syms, b) is Ok {
        let raws = map_results(bg_vals(b), resolve_step(syms, bg_names()))->Ok_0;
        lemma_map_results_ok(bg_vals(b), resolve_step(syms, bg_names()));
        lemma_map_results_ok(raws, check_step(bg_names(), bg_widths()));
        let r = map_results(raws, check_step(bg_names(), bg_widths()))->Ok_0;
        assert(check_step(bg_names(), bg_widths())(raws[0], 0) == Ok::<i64, Seq<char>>(r[0]));
        assert(resolve_step(syms, bg_names())(bg_vals(b)[0], 0) == Ok::<i64, Seq<char>>(raws[0]));
        assert(check_step(bg_names(), bg_widths())(raws[1], 1) == Ok::<i64, Seq<char>>(r[1]));
        assert(resolve_step(syms, bg_names())(bg_vals(b)[1], 1) == Ok::<i64, Seq<char>>(raws[1]));
        assert(check_step(bg_names(), bg_widths())(raws[2], 2) == Ok::<i64, Seq<char>>(r[2]));
        assert(resolve_step(syms, bg_names())(bg_vals(b)[2], 2) == Ok::<i64, Seq<char>>(raws[2]));
        assert(check_step(bg_names(), bg_widths())(raws[3], 3) == Ok::<i64, Seq<char>>(r[3]));
        assert(resolve_step(syms, bg_names())(bg_vals(b)[3], 3) == Ok::<i64, Seq<char>>(raws[3]));
        assert(check_step(bg_names(), bg_widths())(raws[4], 4) == Ok::<i64, Seq<char>>(r[4]));
        assert(resolve_step(syms, bg_names())(bg_vals(b)[4], 4) == Ok::<i64, Seq<char>>(raws[4]));
    }
}

/// Law: reading a HeartGold/SoulSilver JSON event takes each field from the
/// JSON field it is named after, resolved: an object's local id from `id`,
/// graphics from `spriteId`, movement type from `movement`, trainer type from
/// `type`, hidden flag from `eventFlag`, script from `scriptId`, direction
/// from `facingDirection`, data from `param0` to `param2`, movement ranges
/// from `xRange` and `yRange`, and x, z and y from `x`, `z` and `y`.
#[verifier::spinoff_prover]
#[verifier::rlimit(60)]
pub proof fn hgss_object_fields(syms: SymView, o: HgssObjectEventJson)
    ensures
        hg_object(syms, o) matches Ok(e) ==> hg_i64(syms, o.id, "id"@) == Ok::<i64, Seq<char>>(e.local_id as i64)
            && hg_i64(syms, o.sprite_id, "spriteId"@) == Ok::<i64, Seq<char>>(e.graphics_id as i64)
            && hg_i64(syms, o.movement, "movement"@) == Ok::<i64, Seq<char>>(e.movement_type as i64)
            && hg_i64(syms, o.event_type, "type"@) == Ok::<i64, Seq<char>>(e.trainer_type as i64)
            && hg_i64(syms, o.event_flag, "eventFlag"@) == Ok::<i64, Seq<char>>(e.hidden_flag as i64)
            && hg_i64(syms, o.script_id, "scriptId"@) == Ok::<i64, Seq<char>>(e.script as i64)
            && hg_i64(syms, o.facing_direction, "facingDirection"@) == Ok::<i64, Seq<char>>(e.dir as i64)
            && hg_i64(syms, o.param0, "param0"@) == Ok::<i64, Seq<char>>(e.data@[0] as i64)
            && hg_i64(syms, o.param1, "param1"@) == Ok::<i64, Seq<char>>(e.data@[1] as i64)
            && hg_i64(syms, o.param2, "param2"@) == Ok::<i64, Seq<char>>(e.data@[2] as i64)
            && hg_i64(syms, o.x_range, "xRange"@) == Ok::<i64, Seq<char>>(e.movement_range_x as i64)
            && hg_i64(syms, o.y_range, "yRange"@) == Ok::<i64, Seq<char>>(e.movement_range_z as i64)
            && hg_i64(syms, o.x, "x"@) == Ok::<i64, Seq<char>>(e.x as i64)
            && hg_i64(syms, o.z, "z"@) == Ok::<i64, Seq<char>>(e.z as i64)
            && hg_i64(syms, o.y, "y"@) == Ok::<i64, Seq<char>>(e.y as i64),
{
    broadcast use vstd::array::group_array_axioms;
    if hg_object(syms, o) is Ok {
        lemma_map_results_ok(obj_vals(o), resolve_step(syms, obj_names()));
        let raws = map_results(obj_vals(o), resolve_step(syms, obj_names()))->Ok_0;
        lemma_map_results_ok(raws, check_step(obj_names(), obj_widths()));
        let r = map_results(raws, check_step(obj_names(), obj_widths()))->Ok_0;
        assert(check_step(obj_names(), obj_widths())(raws[0], 0) == Ok::<i64, Seq<char>>(r[0]));
        assert(resolve_step(syms, obj_names())(obj_vals(o)[0], 0) == Ok::<i64, Seq<char>>(raws[0]));
        assert(check_step(obj_names(), obj_widths())(raws[1], 1) == Ok::<i64, Seq<char>>(r[1]));
        assert(resolve_step(syms, obj_names())(obj_vals(o)[1], 1) == Ok::<i64, Seq<char>>(raws[1]));
        assert(check_step(obj_names(), obj_widths())(raws[2], 2) == Ok::<i64, Seq<char>>(r[2]));
        assert(resolve_step(syms, obj_names())(obj_vals(o)[2], 2) == Ok::<i64, Seq<char>>(raws[2]));
        assert(check_step(obj_names(), obj_widths())(raws[3], 3) == Ok::<i64, Seq<char>>(r[3]));
        assert(resolve_step(syms, obj_names())(obj_vals(o)[3], 3) == Ok::<i64, Seq<char>>(raws[3]));
        assert(check_step(obj_names(), obj_widths())(raws[4], 4) == Ok::<i64, Seq<char>>(r[4]));
        assert(resolve_step(syms, obj_names())(obj_vals(o)[4], 4) == Ok::<i64, Seq<char>>(raws[4]));
        assert(check_step(obj_names(), obj_widths())(raws[5], 5) == Ok::<i64, Seq<char>>(r[5]));
        assert(resolve_step(syms, obj_names())(obj_vals(o)[5], 5) == Ok::<i64, Seq<char>>(raws[5]));
        assert(check_step(obj_names(), obj_widths())(raws[6], 6) == Ok::<i64, Seq<char>>(r[6]));
        assert(resolve_step(syms, obj_names())(obj_vals(o)[6], 6) == Ok::<i64, Seq<char>>(raws[6]));
        assert(check_step(obj_names(), obj_widths())(raws[7], 7) == Ok::<i64, Seq<char>>(r[7]));
        assert(resolve_step(syms, obj_names())(obj_vals(o)[7], 7) == Ok::<i64, Seq<char>>(raws[7]));
        assert(check_step(obj_names(), obj_widths())(raws[8], 8) == Ok::<i64, Seq<char>>(r[8]));
        assert(resolve_step(syms, obj_names())(obj_vals(o)[8], 8) == Ok::<i64, Seq<char>>(raws[8]));
        assert(check_step(obj_names(), obj_widths())(raws[9], 9) == Ok::<i64, Seq<char>>(r[9]));
        assert(resolve_step(syms, obj_names())(obj_vals(o)[9], 9) == Ok::<i64, Seq<char>>(raws[9]));
        assert(check_step(obj_names(), obj_widths())(raws[10], 10) == Ok::<i64, Seq<char>>(r[10]));
        assert(resolve_step(syms, obj_names())(obj_vals(o)[10], 10) == Ok::<i64, Seq<char>>(raws[10]));
        assert(check_step(obj_names(), obj_widths())(raws[11], 11) == Ok::<i64, Seq<char>>(r[11]));
        assert(resolve_step(syms, obj_names())(obj_vals(o)[11], 11) == Ok::<i64, Seq<char>>(raws[11]));
        assert(check_step(obj_names(), obj_widths())(raws[12], 12) == Ok::<i64, Seq<char>>(r[12]));
        assert(resolve_step(syms, obj_names())(obj_vals(o)[12], 12) == Ok::<i64, Seq<char>>(raws[12]));
        assert(check_step(obj_names(), obj_widths())(raws[13], 13) == Ok::<i64, Seq<char>>(r[13]));
        assert(resolve_step(syms, obj_names())(obj_vals(o)[13], 13) == Ok::<i64, Seq<char>>(raws[13]));
        assert(check_step(obj_names(), obj_widths())(raws[14], 14) == Ok::<i64, Seq<char>>(r[14]));
        assert(resolve_step(syms, obj_names())(obj_vals(o)[14], 14) == Ok::<i64, Seq<char>>(raws[14]));
    }
}

/// Law: reading a HeartGold/SoulSilver JSON event takes each field from the
/// JSON field it is named after, resolved: a warp's x and z from `x` and `z`,
/// destination header from `header`, destination warp from `anchor` and
/// height from `y`.
#[verifier::spinoff_prover]
#[verifier::rlimit(60)]
pub proof fn hgss_warp_fields(syms: SymView, w: HgssWarpEventJson)
    ensures
        hg_warp(syms, w) matches Ok(e) ==> hg_i64(syms, w.x, "x"@) == Ok::<i64, Seq<char>>(e.x as i64)
            && hg_i64(syms, w.z, "z"@) == Ok::<i64, Seq<char>>(e.z as i64)
            && hg_i64(syms, w.header, "header"@) == Ok::<i64, Seq<char>>(e.dest_header_id as i64)
            && hg_i64(syms, w.anchor, "anchor"@) == Ok::<i64, Seq<char>>(e.dest_warp_id as i64)
            && hg_i64(syms, w.y, "y"@) == Ok::<i64, Seq<char>>(e.height as i64),
{
    broadcast use vstd::array::group_array_axioms;
    if hg_warp(syms, w) is Ok {
        lemma_map_results_ok(warp_vals(w), resolve_step(syms, warp_names()));
        let raws = map_results(warp_vals(w), resolve_step(syms, warp_names()))->Ok_0;
        lemma_map_results_ok(raws, check_step(warp_names(), warp_widths()));
        let r = map_results(raws, check_step(warp_names(), warp_widths()))->Ok_0;
        assert(check_step(warp_names(), warp_widths())(raws[0], 0) == Ok::<i64, Seq<char>>(r[0]));
        assert(resolve_step(syms, warp_names())(warp_vals(w)[0], 0) == Ok::<i64, Seq<char>>(raws[0]));
        assert(check_step(warp_names(), warp_widths())(raws[1], 1) == Ok::<i64, Seq<char>>(r[1]));
        assert(resolve_step(syms, warp_names())(warp_vals(w)[1], 1) == Ok::<i64, Seq<char>>(raws[1]));
        assert(check_step(warp_names(), warp_widths())(raws[2], 2) == Ok::<i64, Seq<char>>(r[2]));
        assert(resolve_step(syms, warp_names())(warp_vals(w)[2], 2) == Ok::<i64, Seq<char>>(raws[2]));
        assert(check_step(warp_names(), warp_widths())(raws[3], 3) == Ok::<i64, Seq<char>>(r[3]));
        assert(resolve_step(syms, warp_names())(warp_vals(w)[3], 3) == Ok::<i64, Seq<char>>(raws[3]));
        assert(check_step(warp_names(), warp_widths())(raws[4], 4) == Ok::<i64, Seq<char>>(r[4]));
        assert(resolve_step(syms, warp_names())(warp_vals(w)[4], 4) == Ok::<i64, Seq<char>>(raws[4]));
    }
}

/// Law: reading a HeartGold/SoulSilver JSON event takes each field from the
/// JSON field it is named after, resolved: a coordinate event's script from
/// `scriptId`, x and z from `x` and `z`, width from `w`, length from `h`, y
/// from `y`, value from `val` and variable from `var`.
#[verifier::spinoff_prover]
#[verifier::rlimit(60)]
pub proof fn hgss_coord_fields(syms: SymView, c: HgssCoordEventJson)
    ensures
        hg_coord(syms, c) matches Ok(e) ==> hg_i64(syms, c.script_id, "scriptId"@) == Ok::<i64, Seq<char>>(e.script as i64)
            && hg_i64(syms, c.x, "x"@) == Ok::<i64, Seq<char>>(e.x as i64)
            && hg_i64(syms, c.z, "z"@) == Ok::<i64, Seq<char>>(e.z as i64)
            && hg_i64(syms, c.w, "w"@) == Ok::<i64, Seq<char>>(e.width as i64)
            && hg_i64(syms, c.h, "h"@) == Ok::<i64, Seq<char>>(e.length as i64)
            && hg_i64(syms, c.y, "y"@) == Ok::<i64, Seq<char>>(e.y as i64)
            && hg_i64(syms, c.val, "val"@) == Ok::<i64, Seq<char>>(e.value as i64)
            && hg_i64(syms, c.var, "var"@) == Ok::<i64, Seq<char>>(e.var as i64),
{
    broadcast use vstd::array::group_array_axioms;
    if hg_coord(syms, c) is Ok {
        lemma_map_results_ok(coord_vals(c), resolve_step(syms, coord_names()));
        let raws = map_results(coord_vals(c), resolve_step(syms, coord_names()))->Ok_0;
        lemma_map_results_ok(raws, check_step(coord_names(), coord_widths()));
        let r = map_results(raws, check_step(coord_names(), coord_widths()))->Ok_0;
        assert(check_step(coord_names(), coord_widths())(raws[0], 0) == Ok::<i64, Seq<char>>(r[0]));
        assert(resolve_step(syms, coord_names())(coord_vals(c)[0], 0) == Ok::<i64, Seq<char>>(raws[0]));
        assert(check_step(coord_names(), coord_widths())(raws[1], 1) == Ok::<i64, Seq<char>>(r[1]));
        assert(resolve_step(syms, coord_names())(coord_vals(c)[1], 1) == Ok::<i64, Seq<char>>(raws[1]));
        assert(check_step(coord_names(), coord_widths())(raws[2], 2) == Ok::<i64, Seq<char>>(r[2]));
        assert(resolve_step(syms, coord_names())(coord_vals(c)[2], 2) == Ok::<i64, Seq<char>>(raws[2]));
        assert(check_step(coord_names(), coord_widths())(raws[3], 3) == Ok::<i64, Seq<char>>(r[3]));
        assert(resolve_step(syms, coord_names())(coord_vals(c)[3], 3) == Ok::<i64, Seq<char>>(raws[3]));
        assert(check_step(coord_names(), coord_widths())(raws[4], 4) == Ok::<i64, Seq<char>>(r[4]));
        assert(resolve_step(syms, coord_names())(coord_vals(c)[4], 4) == Ok::<i64, Seq<char>>(raws[4]));
        assert(check_step(coord_names(), coord_widths())(raws[5], 5) == Ok::<i64, Seq<char>>(r[5]));
        assert(resolve_step(syms, coord_names())(coord_vals(c)[5], 5) == Ok::<i64, Seq<char>>(raws[5]));
        assert(check_step(coord_names(), coord_widths())(raws[6], 6) == Ok::<i64, Seq<char>>(r[6]));
        assert(resolve_step(syms, coord_names())(coord_vals(c)[6], 6) == Ok::<i64, Seq<char>>(raws[6]));
        assert(check_step(coord_names(), coord_widths())(raws[7], 7) == Ok::<i64, Seq<char>>(r[7]));
        assert(resolve_step(syms, coord_names())(coord_vals(c)[7], 7) == Ok::<i64, Seq<char>>(raws[7]));
    }
}

} // verus!
