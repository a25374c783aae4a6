use uxie_verified::event_file::{BgEvent, CoordEvent, EventFile, ObjectEvent, WarpEvent};
use uxie_verified::game::GameFamily;

fn empty() -> EventFile {
    EventFile { bg_events: vec![], object_events: vec![], warp_events: vec![], coord_events: vec![] }
}

fn written_size(file: &EventFile) -> usize {
    let mut buf = Vec::new();
    file.to_binary(&mut buf);
    buf.len() - 16
}

fn object() -> ObjectEvent {
    ObjectEvent {
        local_id: 1,
        graphics_id: 100,
        movement_type: 2,
        trainer_type: 0,
        hidden_flag: 0,
        script: 5,
        dir: 3,
        data: [0, 0, 0],
        movement_range_x: 1,
        movement_range_z: 1,
        x: 15,
        z: 25,
        y: 0,
    }
}

#[test]
fn test_binary_record_sizes() {
    let mut one_bg = empty();
    one_bg.bg_events.push(BgEvent { script: 0, event_type: 0, x: 0, z: 0, y: 0, player_facing_dir: 0 });
    assert_eq!(written_size(&one_bg), 0x14);

    let mut one_obj = empty();
    let mut o = object();
    o.local_id = 0;
    one_obj.object_events.push(o);
    assert_eq!(written_size(&one_obj), 0x20);

    let mut one_warp = empty();
    one_warp.warp_events.push(WarpEvent { x: 0, z: 0, dest_header_id: 0, dest_warp_id: 0, height: 0 });
    assert_eq!(written_size(&one_warp), 0x0c);

    let mut one_coord = empty();
    one_coord
        .coord_events
        .push(CoordEvent { script: 0, x: 0, z: 0, width: 0, length: 0, y: 0, value: 0, var: 0 });
    assert_eq!(written_size(&one_coord), 0x10);
}

#[test]
fn test_event_binary_roundtrip() {
    let file = EventFile {
        bg_events: vec![BgEvent { script: 1, event_type: 0, x: 10, z: 20, y: 0, player_facing_dir: 1 }],
        object_events: vec![object()],
        warp_events: vec![WarpEvent { x: 30, z: 40, dest_header_id: 123, dest_warp_id: 1, height: 0 }],
        coord_events: vec![CoordEvent { script: 10, x: -3, z: 4, width: 2, length: 2, y: 0, value: 1, var: 0x4000 }],
    };
    let mut buffer = Vec::new();
    file.to_binary(&mut buffer);
    let decoded = EventFile::from_binary(&buffer).unwrap();
    assert_eq!(file, decoded);
}

#[test]
fn test_platinum_warp_height_rejected() {
    let mut file = empty();
    file.warp_events.push(WarpEvent { x: 1, z: 2, dest_header_id: 3, dest_warp_id: 4, height: 1 });
    let mut buf = Vec::new();
    let err = file.to_binary_for(&mut buf, GameFamily::Platinum).unwrap_err();
    assert!(err.message().contains("warp height must be 0 for Platinum, got 1"));
    let mut buf = Vec::new();
    assert!(file.to_binary_for(&mut buf, GameFamily::HGSS).is_ok());
}

#[test]
fn event_counts_and_truncation() {
    let mut buf = Vec::new();
    empty().to_binary(&mut buf);
    assert_eq!(buf, vec![0u8; 16]);
    assert!(EventFile::from_binary(&buf[..15]).is_err());
    let mut one = empty();
    one.warp_events.push(WarpEvent { x: 1, z: 2, dest_header_id: 3, dest_warp_id: 4, height: 5 });
    let mut b = Vec::new();
    one.to_binary(&mut b);
    assert!(EventFile::from_binary(&b[..b.len() - 1]).is_err());
}

use uxie_verified::c_parser::symbol_table::SymbolTable;
use uxie_verified::event_file::values::JsonValue;
use uxie_verified::event_file::platinum_json::{
    BgEventJson, CoordEventJson, ObjectEventJson, PlatinumEventJson, WarpEventJson,
};
use uxie_verified::event_file::hgss_json::{
    HgssCoordEventJson, HgssEventJson, HgssObjectEventJson, HgssWarpEventJson,
};

fn num(n: i64) -> JsonValue {
    JsonValue::Number(Some(n), n.to_string())
}

fn text(s: &str) -> JsonValue {
    JsonValue::Text(s.to_string())
}

fn pt_object(graphics: JsonValue, hidden: Option<JsonValue>, script: JsonValue) -> ObjectEventJson {
    ObjectEventJson {
        id: "OBJ_0".to_string(),
        graphics_id: graphics,
        movement_type: text("0"),
        trainer_type: text("0"),
        hidden_flag: hidden,
        script,
        initial_dir: 0,
        data: vec![],
        movement_range_x: 0,
        movement_range_z: 0,
        x: 5,
        z: 5,
        y: 0,
        clone_id: None,
        double_battle_id: None,
    }
}

fn pt_file(objects: Vec<ObjectEventJson>) -> PlatinumEventJson {
    PlatinumEventJson { bg_events: vec![], object_events: objects, warp_events: vec![], coord_events: vec![] }
}

fn error_text(e: uxie_verified::error::UxieError) -> String {
    match e {
        uxie_verified::error::UxieError::Io { kind, message } => {
            assert_eq!(kind, uxie_verified::error::ErrorKind::InvalidData);
            message
        }
        other => panic!("unexpected error {:?}", other),
    }
}

#[test]
fn test_platinum_json_resolution() {
    let mut symbols = SymbolTable::new();
    symbols.insert_define("MAP_HEADER_JUBILIFE_CITY".into(), 10);
    symbols.insert_define("VAR_STORY_PROGRESS".into(), 0x4000);
    symbols.insert_define("OBJ_EVENT_GFX_PLAYER".into(), 1);
    symbols.insert_define("BG_EVENT_DIR_NORTH".into(), 1);

    let parsed = PlatinumEventJson {
        bg_events: vec![BgEventJson {
            script: 1,
            event_type: text("0"),
            x: 10,
            z: 10,
            y: 0,
            player_facing_dir: Some(text("BG_EVENT_DIR_NORTH")),
        }],
        object_events: vec![ObjectEventJson {
            id: "OBJ_1".to_string(),
            graphics_id: text("OBJ_EVENT_GFX_PLAYER"),
            movement_type: text("0"),
            trainer_type: text("0"),
            hidden_flag: Some(text("0")),
            script: num(1),
            initial_dir: 0,
            data: vec![],
            movement_range_x: 0,
            movement_range_z: 0,
            x: 5,
            z: 5,
            y: 0,
            clone_id: None,
            double_battle_id: None,
        }],
        warp_events: vec![WarpEventJson {
            x: 1,
            z: 1,
            dest_header_id: text("MAP_HEADER_JUBILIFE_CITY"),
            dest_warp_id: 0,
        }],
        coord_events: vec![CoordEventJson {
            script: 1,
            x: 0,
            z: 0,
            width: 1,
            length: 1,
            y: 0,
            value: num(5),
            var: Some(text("VAR_STORY_PROGRESS")),
        }],
    };
    let file = EventFile::from_platinum_json(&parsed, &symbols).unwrap();
    assert_eq!(file.bg_events[0].player_facing_dir, 1);
    assert_eq!(file.object_events[0].graphics_id, 1);
    assert_eq!(file.warp_events[0].dest_header_id, 10);
    assert_eq!(file.coord_events[0].var, 0x4000);
}

#[test]
fn test_platinum_object_y_shift_and_clone_id() {
    let mut symbols = SymbolTable::new();
    symbols.insert_define("OBJ_EVENT_GFX_PLAYER".into(), 1);
    symbols.insert_define("FLAG_HIDE_FOO".into(), 42);

    let mut obj = pt_object(text("OBJ_EVENT_GFX_PLAYER"), Some(text("FLAG_HIDE_FOO")), num(5));
    obj.id = "LOCALID_FOO".to_string();
    obj.clone_id = Some(2);
    obj.data = vec![1, 2];
    obj.x = 10;
    obj.z = 20;
    obj.y = 3;
    let parsed = pt_file(vec![obj]);
    let file = EventFile::from_platinum_json(&parsed, &symbols).unwrap();
    assert_eq!(file.object_events[0].local_id, 2);
    assert_eq!(file.object_events[0].y, 3 * 0x10000);
    assert_eq!(file.object_events[0].hidden_flag, 42);
    assert_eq!(file.object_events[0].data, [1, 2, 0]);
}

#[test]
fn platinum_local_id_defaults_to_list_index() {
    let symbols = SymbolTable::new();
    let parsed = pt_file(vec![pt_object(num(0), None, num(0)), pt_object(num(0), None, num(0))]);
    let file = EventFile::from_platinum_json(&parsed, &symbols).unwrap();
    assert_eq!(file.object_events[0].local_id, 0);
    assert_eq!(file.object_events[1].local_id, 1);
    assert_eq!(file.object_events[1].hidden_flag, 0);
}

#[test]
fn platinum_trainer_scripts_use_their_base() {
    let mut symbols = SymbolTable::new();
    symbols.insert_define("TRAINER_RIVAL_1".into(), 25);
    let single = pt_object(num(0), None, text("TRAINER_RIVAL_1"));
    let mut double = pt_object(num(0), None, text("TRAINER_RIVAL_1"));
    double.double_battle_id = Some(2);
    let file = EventFile::from_platinum_json(&pt_file(vec![single, double]), &symbols).unwrap();
    assert_eq!(file.object_events[0].script, 3024);
    assert_eq!(file.object_events[1].script, 5024);
}

#[test]
fn platinum_script_errors() {
    let mut symbols = SymbolTable::new();
    symbols.insert_define("TRAINER_NONE".into(), 0);
    symbols.insert_define("TRAINER_HUGE".into(), 70000);
    symbols.insert_define("BIG".into(), 70000);
    let cases = [
        (text("TRAINER_NONE"), "invalid value for `script`: trainer script overflow for TRAINER_NONE"),
        (text("TRAINER_HUGE"), "invalid value for `script`: trainer constant TRAINER_HUGE out of range"),
        (text(" BIG "), "invalid value for `script`: `BIG` = 70000 out of range for u16"),
        (num(-1), "invalid value for `script`: script -1 out of range for u16"),
        (text("NOPE"), "invalid value for `script`: unknown symbol or expression `NOPE`"),
    ];
    for (script, expected) in cases {
        let parsed = pt_file(vec![pt_object(num(0), None, script)]);
        let err = EventFile::from_platinum_json(&parsed, &symbols).unwrap_err();
        assert_eq!(error_text(err), expected);
    }
}

#[test]
fn platinum_field_errors() {
    let symbols = SymbolTable::new();
    let cases = [
        (JsonValue::Number(None, "1.5".to_string()), "invalid value for `graphics_id`: invalid number 1.5"),
        (JsonValue::Other("null".to_string()), "invalid value for `graphics_id`: expected number, string, or boolean, got null"),
        (num(70000), "invalid value for `graphics_id`: value 70000 out of range for u16"),
    ];
    for (graphics, expected) in cases {
        let parsed = pt_file(vec![pt_object(graphics, None, num(0))]);
        let err = EventFile::from_platinum_json(&parsed, &symbols).unwrap_err();
        assert_eq!(error_text(err), expected);
    }
    let ok = EventFile::from_platinum_json(&pt_file(vec![pt_object(JsonValue::Bool(true), None, num(0))]), &symbols).unwrap();
    assert_eq!(ok.object_events[0].graphics_id, 1);

    let mut big_data = pt_object(num(0), None, num(0));
    big_data.data = vec![1, 2, 3, 4];
    let err = EventFile::from_platinum_json(&pt_file(vec![big_data]), &symbols).unwrap_err();
    assert_eq!(error_text(err), "invalid value for `data`: object data has 4 entries, maximum is 3");

    let mut high = pt_object(num(0), None, num(0));
    high.y = 40000;
    let err = EventFile::from_platinum_json(&pt_file(vec![high]), &symbols).unwrap_err();
    assert_eq!(error_text(err), "object y 40000 overflows when scaled for Platinum binary");
}

fn hgss_object(id: JsonValue, sprite: JsonValue, flag: JsonValue, script: JsonValue) -> HgssObjectEventJson {
    HgssObjectEventJson {
        id,
        sprite_id: sprite,
        movement: num(0),
        event_type: num(0),
        event_flag: flag,
        script_id: script,
        facing_direction: num(1),
        param0: num(0),
        param1: num(0),
        param2: num(0),
        x_range: num(0),
        y_range: num(0),
        x: num(3),
        z: num(3),
        y: num(5),
    }
}

#[test]
fn test_hgss_expression_and_direct_y() {
    let mut symbols = SymbolTable::new();
    symbols.insert_define("obj_UNION_pcwoman3".into(), 4);
    symbols.insert_define("_EV_scr_seq_UNION_007".into(), 10);
    symbols.insert_define("SPRITE_PCWOMAN3".into(), 99);
    symbols.insert_define("FLAG_NOTHING".into(), 0);

    let parsed = HgssEventJson {
        header: None,
        bgs: vec![],
        objects: vec![hgss_object(
            text("obj_UNION_pcwoman3"),
            text("SPRITE_PCWOMAN3"),
            text("FLAG_NOTHING"),
            text("_EV_scr_seq_UNION_007 + 1"),
        )],
        warps: vec![HgssWarpEventJson { x: num(1), z: num(2), header: num(3), anchor: num(4), y: num(7) }],
        coords: vec![],
    };
    let file = EventFile::from_hgss_json(&parsed, &symbols).unwrap();
    assert_eq!(file.object_events[0].local_id, 4);
    assert_eq!(file.object_events[0].script, 11);
    assert_eq!(file.object_events[0].y, 5);
    assert_eq!(file.warp_events[0].height, 7);
}

#[test]
fn hgss_trainer_macros_expand() {
    let mut symbols = SymbolTable::new();
    symbols.insert_define("TRAINER_FALKNER".into(), 20);
    symbols.insert_define("FIRST_TRAINER_INDEX".into(), 1);
    symbols.insert_define("_std_npc_trainer".into(), 3000);
    symbols.insert_define("_std_npc_trainer_2".into(), 5000);
    let one = hgss_object(num(0), num(0), num(0), text("std_trainer( TRAINER_FALKNER )"));
    let two = hgss_object(num(1), num(0), num(0), text("std_trainer_2(TRAINER_FALKNER)"));
    let parsed = HgssEventJson { header: None, bgs: vec![], objects: vec![one, two], warps: vec![], coords: vec![] };
    let file = EventFile::from_hgss_json(&parsed, &symbols).unwrap();
    assert_eq!(file.object_events[0].script, 3019);
    assert_eq!(file.object_events[1].script, 5019);
}

#[test]
fn hgss_range_checks_come_after_resolution() {
    let symbols = SymbolTable::new();
    // The id is out of range, but the unknown sprite is reported first.
    let obj = hgss_object(num(-1), text("SPRITE_MISSING"), num(0), num(0));
    let parsed = HgssEventJson { header: None, bgs: vec![], objects: vec![obj], warps: vec![], coords: vec![] };
    let err = EventFile::from_hgss_json(&parsed, &symbols).unwrap_err();
    assert_eq!(error_text(err), "invalid value for `spriteId`: unknown symbol or expression `SPRITE_MISSING`");

    let obj = hgss_object(num(-1), num(0), num(0), num(0));
    let parsed = HgssEventJson { header: None, bgs: vec![], objects: vec![obj], warps: vec![], coords: vec![] };
    let err = EventFile::from_hgss_json(&parsed, &symbols).unwrap_err();
    assert_eq!(error_text(err), "invalid value for `id`: value -1 out of range for u16");

    let coord = HgssCoordEventJson {
        script_id: num(1), x: num(-40000), z: num(0), w: num(1), h: num(1), y: num(0),
        val: num(0), var: JsonValue::Bool(false),
    };
    let parsed = HgssEventJson { header: None, bgs: vec![], objects: vec![], warps: vec![], coords: vec![coord] };
    let err = EventFile::from_hgss_json(&parsed, &symbols).unwrap_err();
    assert_eq!(error_text(err), "invalid value for `var`: expected number or string, got false");
}

fn plain_object(local_id: u16, script: u16, data: [u16; 3], y: i32) -> ObjectEvent {
    ObjectEvent {
        local_id,
        graphics_id: 0,
        movement_type: 0,
        trainer_type: 0,
        hidden_flag: 0,
        script,
        dir: 0,
        data,
        movement_range_x: 0,
        movement_range_z: 0,
        x: 0,
        z: 0,
        y,
    }
}

fn number_of(v: &JsonValue) -> Option<i64> {
    match v {
        JsonValue::Number(n, _) => *n,
        _ => None,
    }
}

#[test]
fn test_binary_to_json_preserves_large_coordinates() {
    let file = EventFile {
        bg_events: vec![BgEvent { script: 1, event_type: 0, x: 69, z: 106, y: 0, player_facing_dir: 0 }],
        object_events: vec![],
        warp_events: vec![WarpEvent { x: 68, z: 118, dest_header_id: 0, dest_warp_id: 0, height: 0 }],
        coord_events: vec![CoordEvent { script: 1, x: 33, z: -5, width: 1, length: 1, y: 0, value: 0, var: 0 }],
    };
    let symbols = SymbolTable::new();
    let json = file.to_platinum_json(&symbols).unwrap();
    assert_eq!(json.bg_events[0].x, 69);
    assert_eq!(json.bg_events[0].z, 106);
    assert_eq!(json.warp_events[0].x, 68);
    assert_eq!(json.warp_events[0].z, 118);
    assert_eq!(json.coord_events[0].x, 33);
    assert_eq!(json.coord_events[0].z, -5);
}

#[test]
fn test_platinum_json_semantic_roundtrip() {
    let mut symbols = SymbolTable::new();
    symbols.insert_define("OBJ_EVENT_GFX_PLAYER".into(), 1);
    symbols.insert_define("BG_EVENT_DIR_NORTH".into(), 1);
    let mut obj = pt_object(text("OBJ_EVENT_GFX_PLAYER"), Some(text("0")), num(2));
    obj.x = 10;
    obj.z = 20;
    let parsed = PlatinumEventJson {
        bg_events: vec![BgEventJson {
            script: 1,
            event_type: text("0"),
            x: 69,
            z: 106,
            y: 0,
            player_facing_dir: Some(text("BG_EVENT_DIR_NORTH")),
        }],
        object_events: vec![obj],
        warp_events: vec![],
        coord_events: vec![],
    };
    let native = EventFile::from_platinum_json(&parsed, &symbols).unwrap();
    let emitted = native.to_platinum_json(&symbols).unwrap();
    let roundtrip = EventFile::from_platinum_json(&emitted, &symbols).unwrap();
    assert_eq!(native, roundtrip);
}

#[test]
fn test_platinum_signed_coord_json_roundtrip() {
    let symbols = SymbolTable::new();
    let mut file = empty();
    file.coord_events.push(CoordEvent { script: 1, x: -3, z: -5, width: 1, length: 1, y: 0, value: 0, var: 0 });
    let emitted = file.to_platinum_json(&symbols).unwrap();
    assert_eq!(emitted.coord_events[0].x, -3);
    assert_eq!(emitted.coord_events[0].z, -5);
    let reparsed = EventFile::from_platinum_json(&emitted, &symbols).unwrap();
    assert_eq!(file, reparsed);
}

#[test]
fn test_platinum_object_data_trims_only_trailing_zeroes() {
    let symbols = SymbolTable::new();
    let mut file = empty();
    file.object_events.push(plain_object(0, 0, [0, 1, 0], 0));
    let emitted = file.to_platinum_json(&symbols).unwrap();
    assert_eq!(emitted.object_events[0].data, vec![0, 1]);
    let reparsed = EventFile::from_platinum_json(&emitted, &symbols).unwrap();
    assert_eq!(file, reparsed);
}

#[test]
fn test_platinum_trainer_scripts_emit_symbolic_json_when_possible() {
    let mut symbols = SymbolTable::new();
    symbols.insert_define("TRAINER_RIVAL_1".into(), 25);
    let mut file = empty();
    file.object_events.push(plain_object(0, 3024, [0; 3], 0));
    file.object_events.push(plain_object(1, 5024, [0; 3], 0));
    let emitted = file.to_platinum_json(&symbols).unwrap();
    assert_eq!(emitted.object_events[0].script, text("TRAINER_RIVAL_1"));
    assert_eq!(emitted.object_events[0].double_battle_id, Some(1));
    assert_eq!(emitted.object_events[1].script, text("TRAINER_RIVAL_1"));
    assert_eq!(emitted.object_events[1].double_battle_id, Some(2));
    let reparsed = EventFile::from_platinum_json(&emitted, &symbols).unwrap();
    assert_eq!(file, reparsed);
}

#[test]
fn test_platinum_clone_id_preserves_u16_values() {
    let symbols = SymbolTable::new();
    let mut file = empty();
    file.object_events.push(plain_object(300, 0, [0; 3], 0));
    let emitted = file.to_platinum_json(&symbols).unwrap();
    assert_eq!(emitted.object_events[0].clone_id, Some(300));
    let reparsed = EventFile::from_platinum_json(&emitted, &symbols).unwrap();
    assert_eq!(file, reparsed);
}

#[test]
fn test_platinum_json_rejects_nonzero_warp_height() {
    let symbols = SymbolTable::new();
    let mut file = empty();
    file.warp_events.push(WarpEvent { x: 0, z: 0, dest_header_id: 0, dest_warp_id: 0, height: 1 });
    let err = file.to_platinum_json(&symbols).unwrap_err();
    assert_eq!(
        error_text(err),
        "invalid value for `warp.height`: Platinum JSON cannot represent non-zero warp height 1"
    );
}

#[test]
fn platinum_json_rejects_unscaled_heights_and_writes_scaled_ones() {
    let symbols = SymbolTable::new();
    let mut file = empty();
    file.object_events.push(plain_object(0, 0, [0; 3], -3 * 0x10000));
    let emitted = file.to_platinum_json(&symbols).unwrap();
    assert_eq!(emitted.object_events[0].y, -3);
    assert_eq!(emitted.object_events[0].id, "OBJ_0");
    assert_eq!(emitted.object_events[0].clone_id, None);
    assert_eq!(emitted.object_events[0].hidden_flag.as_ref().and_then(number_of), Some(0));
    file.object_events[0].y = 5;
    let err = file.to_platinum_json(&symbols).unwrap_err();
    assert_eq!(error_text(err), "object y 5 is not a multiple of 0x10000");
}

#[test]
fn hgss_json_round_trip_writes_numbers() {
    let symbols = SymbolTable::new();
    let mut file = empty();
    file.bg_events.push(BgEvent { script: 7, event_type: 1, x: -4, z: 9, y: 2, player_facing_dir: 0 });
    file.object_events.push(plain_object(3, 11, [1, 2, 3], 5));
    file.warp_events.push(WarpEvent { x: 1, z: 2, dest_header_id: 3, dest_warp_id: 4, height: 7 });
    file.coord_events.push(CoordEvent { script: 1, x: -3, z: 4, width: 2, length: 2, y: 0, value: 1, var: 0x4000 });
    let json = file.to_hgss_json(&symbols, Some("fielddata/x.h".to_string()));
    assert_eq!(json.header.as_deref(), Some("fielddata/x.h"));
    assert_eq!(number_of(&json.objects[0].param2), Some(3));
    assert_eq!(number_of(&json.warps[0].y), Some(7));
    assert!(json.bgs[0].player_facing_dir.is_none());
    let back = EventFile::from_hgss_json(&json, &symbols).unwrap();
    assert_eq!(file, back);
}
