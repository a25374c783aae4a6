use uxie_verified::c_parser::defines::{parse_defines, CDefine};
use uxie_verified::c_parser::enums::parse_enum;
use uxie_verified::c_parser::expr::{parse_and_resolve_defines, parse_value};
use uxie_verified::c_parser::includes::parse_includes;
use uxie_verified::c_parser::symbol_table::{canonicalize_constant_name, ConstantFamily, SymbolTable};
use uxie_verified::c_parser::json::JsonTree;
use uxie_verified::c_parser::text_banks::{canonicalize_text_bank_constant, text_bank_display_name};
use uxie_verified::game::GameLanguage;

fn eval(expr: &str) -> Option<i64> {
    parse_value(expr, &Vec::new())
}

fn eval_with(expr: &str, defines: &[(&str, &str)]) -> Option<i64> {
    let defs: Vec<CDefine> = defines
        .iter()
        .map(|(n, v)| CDefine { name: n.to_string(), value: v.to_string(), resolved: None })
        .collect();
    parse_value(expr, &defs)
}

#[test]
fn test_parse_simple_defines() {
    let source = r"
#define ENCOUNTERS_NONE 0xFFFF
#define MAX_HEADERS 593
#define SOME_VALUE 0x10
        ";
    let defines = parse_defines(source);
    assert_eq!(defines.len(), 3);
    assert_eq!(defines[0].name, "ENCOUNTERS_NONE");
    assert_eq!(defines[0].value, "0xFFFF");
}

#[test]
fn test_resolve_defines() {
    let source = r"
#define A 10
#define B A + 5
#define C (A | B)
        ";
    let defines = parse_and_resolve_defines(source);
    assert_eq!(defines.iter().find(|d| d.name == "B").and_then(|d| d.resolved), Some(15));
    assert_eq!(defines.iter().find(|d| d.name == "C").and_then(|d| d.resolved), Some(10 | 15));
}

#[test]
fn test_bitwise_precedence() {
    assert_eq!(eval("1 | 2 << 1"), Some(1 | (2 << 1)));
    assert_eq!(eval("1 & 2 << 1"), Some(1 & (2 << 1)));
    assert_eq!(eval("1 << 1 | 2"), Some((1 << 1) | 2));
}

#[test]
fn test_rgb_macro() {
    assert_eq!(eval("RGB(31, 0, 0)"), Some(31));
    assert_eq!(eval("RGB(0, 31, 0)"), Some(31 << 5));
    assert_eq!(eval("RGB(0, 0, 31)"), Some(31 << 10));
}

#[test]
fn test_nested_rgb() {
    assert_eq!(eval_with("RGB(R, 0, 0)", &[("R", "31")]), Some(31));
}

#[test]
fn test_cycle_detection() {
    assert_eq!(eval_with("A", &[("A", "B"), ("B", "A")]), None);
}

#[test]
fn test_complex_precedence() {
    assert_eq!(eval("1 + 2 * 3"), Some(7));
    assert_eq!(eval("(1 + 2) * 3"), Some(9));
    assert_eq!(eval("1 << 2 + 3"), Some(32));
}

#[test]
fn test_unsupported_comparison_operators_return_none() {
    assert_eq!(eval("1 < 2"), None);
    assert_eq!(eval("1 > 2"), None);
}

#[test]
fn test_malformed_numeric_literals_return_none() {
    assert_eq!(eval("0x"), None);
    assert_eq!(eval("0xZZ"), None);
}

#[test]
fn test_unbalanced_parentheses_return_none() {
    assert_eq!(eval("(1 + 2"), None);
}

#[test]
fn evaluator_unary_and_division_truncate_toward_zero() {
    assert_eq!(eval("-7 / 2"), Some(-3));
    assert_eq!(eval("-7 % 2"), Some(-1));
    assert_eq!(eval("~0"), Some(-1));
    assert_eq!(eval("1 / 0"), None);
}

#[test]
fn evaluator_later_define_wins() {
    assert_eq!(eval_with("X", &[("X", "1"), ("X", "2")]), Some(2));
}

#[test]
fn test_parse_enum() {
    let source = r#"
enum MapHeader {
    MAP_HEADER_EVERYWHERE = 0,
    MAP_HEADER_NOTHING,
    MAP_HEADER_UNDERGROUND,
    MAP_HEADER_JUBILIFE_CITY,
    MAP_HEADER_COUNT = 593,
}
        "#;

    let e = parse_enum(source).unwrap();
    assert_eq!(e.name, Some("MapHeader".to_string()));
    assert_eq!(e.get_value("MAP_HEADER_EVERYWHERE"), Some(0));
    assert_eq!(e.get_value("MAP_HEADER_NOTHING"), Some(1));
    assert_eq!(e.get_value("MAP_HEADER_UNDERGROUND"), Some(2));
    assert_eq!(e.get_value("MAP_HEADER_COUNT"), Some(593));
}

#[test]
fn parse_enum_anonymous_hex_and_comments() {
    let source = "typedef enum {\n  // leading comment\n  A = 0x10,\n  B,\n  C = junk,\n}";
    let e = parse_enum(source).unwrap();
    assert_eq!(e.name, None);
    assert_eq!(e.variants.len(), 3);
    assert_eq!(e.variants[0].value, Some(16));
    assert_eq!(e.variants[1].value, None);
    assert_eq!(e.variants[2].value, None);
    assert_eq!(e.get_value("B"), Some(17));
    assert_eq!(e.get_name(18), Some("C"));
}

#[test]
fn parse_enum_without_enum_is_none() {
    assert!(parse_enum("#define X 1").is_none());
    assert!(parse_enum("enum E { }").is_some());
    assert!(parse_enum("enum E {").is_none());
}

#[test]
fn test_parse_includes() {
    let source = r#"
#include <stdio.h>
#include "map_header.h"
#include "generated/map_headers.h"
        "#;

    let includes = parse_includes(source);
    assert_eq!(includes.len(), 3);
    assert!(includes[0].is_system);
    assert!(!includes[1].is_system);
    assert_eq!(includes[1].path, "map_header.h");
}

#[test]
fn test_parse_includes_skips_commented_out_directives() {
    let source = r#"
// #include "commented_out.h"
/* #include "block_comment.h" */
    #include "real.h"
        "#;

    let includes = parse_includes(source);
    assert_eq!(includes.len(), 1);
    assert_eq!(includes[0].path, "real.h");
    assert!(!includes[0].is_system);
}

#[test]
fn test_canonicalize_constant_name_examples() {
    assert_eq!(canonicalize_constant_name("Poké Ball"), "POKE_BALL");
    assert_eq!(canonicalize_constant_name("Farfetch'd"), "FARFETCHD");
    assert_eq!(canonicalize_constant_name("Nidoran♀"), "NIDORAN_F");
    assert_eq!(canonicalize_constant_name("Mr. Mime"), "MR_MIME");
    assert_eq!(canonicalize_constant_name("Ho-Oh"), "HO_OH");
    assert_eq!(canonicalize_constant_name("Amy & Mimi"), "AMY_AND_MIMI");
}

#[test]
fn symbol_table_knows_true_and_false() {
    let table = SymbolTable::new();
    assert_eq!(table.resolve_constant("TRUE"), Some(1));
    assert_eq!(table.resolve_constant("FALSE"), Some(0));
    assert_eq!(table.resolve_constant("MAYBE"), None);
}

#[test]
fn symbol_table_last_definition_wins_and_names_keep_history() {
    let mut table = SymbolTable::new();
    table.insert_define("SPECIES_A".to_string(), 5);
    table.insert_define("SPECIES_AB".to_string(), 5);
    table.insert_define("SPECIES_A".to_string(), 6);
    assert_eq!(table.resolve_constant("SPECIES_A"), Some(6));
    assert_eq!(table.resolve_name(5, "SPECIES_"), Some("SPECIES_A".to_string()));
    assert_eq!(table.resolve_name(6, "SPECIES_"), Some("SPECIES_A".to_string()));
    assert_eq!(table.resolve_name(5, "ITEM_"), None);
    assert_eq!(table.resolve_name(1, ""), Some("TRUE".to_string()));
}

#[test]
fn symbol_table_transliterated_lookup() {
    let mut table = SymbolTable::new();
    table.insert_define("ITEM_STERNENSTUCK".to_string(), 7);
    assert_eq!(table.resolve_constant("ITEM_STERNENSTÜCK"), Some(7));
    assert_eq!(table.lookup_exact("ITEM_STERNENSTÜCK"), None);
}

#[test]
fn symbol_table_enum_variants_with_values() {
    let mut table = SymbolTable::new();
    table.insert_enum(
        "E".to_string(),
        vec![("A".to_string(), Some(3)), ("B".to_string(), None), ("C".to_string(), Some(9))],
    );
    assert_eq!(table.resolve_constant("A"), Some(3));
    assert_eq!(table.resolve_constant("B"), None);
    assert_eq!(table.resolve_constant("C"), Some(9));
}

#[test]
fn constant_family_by_prefix_and_family_resolution() {
    let mut table = SymbolTable::new();
    for (name, value) in [
        ("SPECIES_BULBASAUR", 1),
        ("ITEM_MASTER_BALL", 1),
        ("TRAINER_RIVAL_BARRY_001", 2),
        ("TRAINER_CLASS_LEADER_ROARK", 2),
        ("LOCATION_JUBILIFE_CITY", 3),
        ("MAPSEC_JUBILIFE_CITY", 4),
        ("MOVE_TACKLE", 5),
        ("SEQ_SE_CONFIRM", 6),
    ] {
        table.insert_define(name.to_string(), value);
    }
    assert_eq!(table.constant_family("SPECIES_BULBASAUR"), Some(ConstantFamily::Species));
    assert_eq!(table.constant_family("ITEM_MASTER_BALL"), Some(ConstantFamily::Item));
    assert_eq!(table.constant_family("TRAINER_RIVAL_BARRY_001"), Some(ConstantFamily::Trainer));
    assert_eq!(table.constant_family("TRAINER_CLASS_LEADER_ROARK"), Some(ConstantFamily::TrainerClass));
    assert_eq!(table.constant_family("LOCATION_JUBILIFE_CITY"), Some(ConstantFamily::Location));
    assert_eq!(table.constant_family("MAPSEC_JUBILIFE_CITY"), Some(ConstantFamily::Location));
    assert_eq!(table.constant_family("MOVE_TACKLE"), Some(ConstantFamily::Move));
    assert_eq!(table.constant_family("SEQ_SE_CONFIRM"), Some(ConstantFamily::Sound));
    assert_eq!(table.constant_family("TRUE"), None);
    assert_eq!(table.resolve_name_in_family(1, ConstantFamily::Species), Some("SPECIES_BULBASAUR".to_string()));
    assert_eq!(table.resolve_name_in_family(1, ConstantFamily::Item), Some("ITEM_MASTER_BALL".to_string()));
    assert_eq!(table.resolve_name_in_family(2, ConstantFamily::Trainer), Some("TRAINER_RIVAL_BARRY_001".to_string()));
    assert_eq!(table.resolve_name_in_family(2, ConstantFamily::TrainerClass), Some("TRAINER_CLASS_LEADER_ROARK".to_string()));
    assert_eq!(ConstantFamily::from_symbol_name("SEQ_X"), Some(ConstantFamily::Sound));
    assert_eq!(ConstantFamily::from_symbol_name("FLAG_X"), None);
}

fn io_message(e: uxie_verified::error::UxieError) -> String {
    assert_eq!(e.kind(), uxie_verified::error::ErrorKind::InvalidData);
    match e {
        uxie_verified::error::UxieError::Io { message, .. } => message,
        other => panic!("unexpected error {:?}", other),
    }
}

#[test]
fn test_load_list_file_str_propagates_assignment_eval_errors() {
    let mut table = SymbolTable::new();
    let err = table.load_list_file_str("CONST_A = 1\nCONST_B = UNKNOWN_SYMBOL\n").unwrap_err();
    let msg = io_message(err);
    assert!(msg.contains("CONST_B"));
    assert!(msg.contains("UNKNOWN_SYMBOL"));
}

#[test]
fn test_load_list_file_str_assignment_with_inline_comment() {
    let mut table = SymbolTable::new();
    table.load_list_file_str("CONST_A = 1 # comment\nCONST_B\n").unwrap();
    assert_eq!(table.resolve_constant("CONST_A"), Some(1));
    assert_eq!(table.resolve_constant("CONST_B"), Some(2));
}

#[test]
fn test_load_list_file_str_rejects_unsupported_ternary_expression() {
    let mut table = SymbolTable::new();
    let err = table.load_list_file_str("CONST_A = 1 ? 2 : 3\n").unwrap_err();
    let msg = io_message(err);
    assert!(msg.contains("CONST_A"));
    assert!(msg.contains("1 ? 2 : 3"));
}

#[test]
fn list_file_numbering_comments_and_masks() {
    let mut table = SymbolTable::new();
    table
        .load_list_file_str("// header\nFIRST\n\n# note\nSECOND # trailing\nTHIRD = 10\nFOURTH\n")
        .unwrap();
    assert_eq!(table.resolve_constant("FIRST"), Some(0));
    assert_eq!(table.resolve_constant("SECOND"), Some(1));
    assert_eq!(table.resolve_constant("THIRD"), Some(10));
    assert_eq!(table.resolve_constant("FOURTH"), Some(11));

    let mut masks = SymbolTable::new();
    masks.load_list_file_str_with_tag("BIT_A\nBIT_B\nBIT_C = 62\nBIT_D\n", "flags.txt", true).unwrap();
    assert_eq!(masks.resolve_constant("BIT_A"), Some(1));
    assert_eq!(masks.resolve_constant("BIT_B"), Some(2));
    assert_eq!(masks.resolve_constant("BIT_C"), Some(62));
    assert_eq!(masks.resolve_constant("BIT_D"), Some(i64::MIN));

    let mut wide = SymbolTable::new();
    let err = wide.load_list_file_str_with_tag("X = 64\nTOO_FAR\n", "flags.txt", true).unwrap_err();
    assert_eq!(io_message(err), "Mask constant 'TOO_FAR' at flags.txt:2 exceeds i64 bit width");
    assert_eq!(wide.resolve_constant("X"), Some(64));

    let mut bad = SymbolTable::new();
    let err = bad.load_list_file_str_with_tag("A\n\nB = NOPE\n", "list.txt", false).unwrap_err();
    assert_eq!(io_message(err), "Failed to evaluate assignment expression 'NOPE' for 'B' at list.txt:3");
    assert_eq!(bad.resolve_constant("A"), Some(0));
}

#[test]
fn test_load_python_enum_str_propagates_assignment_eval_errors() {
    let mut table = SymbolTable::new();
    let err = table
        .load_python_enum_str_with_tag("SPECIES_OK = 1\nSPECIES_BAD = UNKNOWN_SYMBOL\n", "inline.py")
        .unwrap_err();
    let msg = io_message(err);
    assert!(msg.contains("SPECIES_BAD"));
    assert!(msg.contains("UNKNOWN_SYMBOL"));
}

#[test]
fn test_load_python_enum_str_allows_non_constant_assignments() {
    let mut table = SymbolTable::new();
    table
        .load_python_enum_str_with_tag(
            "__all__ = [\"SPECIES_OK\"]\nhelper = 5\nSPECIES_OK = 1\n",
            "inline.py",
        )
        .unwrap();
    assert_eq!(table.resolve_constant("SPECIES_OK"), Some(1));
    assert_eq!(table.resolve_constant("__all__"), None);
    assert_eq!(table.resolve_constant("helper"), None);
}

#[test]
fn test_load_python_enum_str_assignment_with_inline_comment() {
    let mut table = SymbolTable::new();
    table
        .load_python_enum_str_with_tag("SPECIES_OK = 1 # comment\nSPECIES_NEXT = SPECIES_OK + 1\n", "inline.py")
        .unwrap();
    assert_eq!(table.resolve_constant("SPECIES_OK"), Some(1));
    assert_eq!(table.resolve_constant("SPECIES_NEXT"), Some(2));
}

#[test]
fn test_load_python_enum_str_rejects_unsupported_ternary_expression() {
    let mut table = SymbolTable::new();
    let err = table.load_python_enum_str_with_tag("SPECIES_BAD = 1 ? 2 : 3\n", "inline.py").unwrap_err();
    let msg = io_message(err);
    assert!(msg.contains("SPECIES_BAD"));
    assert!(msg.contains("1 ? 2 : 3"));
}

#[test]
fn python_enum_error_names_file_and_line() {
    let mut table = SymbolTable::new();
    let err = table
        .load_python_enum_str_with_tag("class Species(Enum):\n    SPECIES_X = nope(\n", "species.py")
        .unwrap_err();
    assert_eq!(io_message(err), "Failed to evaluate python enum expression 'nope(' for 'SPECIES_X' at species.py:2");
}

#[test]
fn get_all_defines_lists_each_name_once_with_its_last_value() {
    let mut table = SymbolTable::new();
    table.insert_define("A".to_string(), 1);
    table.insert_define("B".to_string(), 2);
    table.insert_define("A".to_string(), 3);
    let mut all = table.get_all_defines();
    all.sort();
    assert_eq!(
        all,
        vec![
            ("A".to_string(), 3),
            ("B".to_string(), 2),
            ("FALSE".to_string(), 0),
            ("TRUE".to_string(), 1),
        ]
    );
}

/// A text bank JSON document whose messages have the given English names.
fn bank_json(names: &[&str]) -> String {
    let messages: Vec<String> = names
        .iter()
        .enumerate()
        .map(|(i, n)| format!("{{ \"id\": \"msg_{:04}\", \"en_US\": \"{}\" }}", i, n))
        .collect();
    format!("{{ \"messages\": [ {} ] }}", messages.join(", "))
}

#[test]
fn test_load_text_bank_json_constants_emits_canonical_prefixed_symbols() {
    let content = bank_json(&["-----", "Farfetch'd", "Nidoran♀", "Mr. Mime"]);
    let mut table = SymbolTable::new();
    let loaded = table
        .load_text_bank_json_constants(&content, "species.json", "SPECIES_", None, GameLanguage::English)
        .unwrap();
    assert_eq!(loaded, 4);
    assert_eq!(table.resolve_constant("SPECIES_NONE"), Some(0));
    assert_eq!(table.resolve_constant("SPECIES_FARFETCHD"), Some(1));
    assert_eq!(table.resolve_constant("SPECIES_NIDORAN_F"), Some(2));
    assert_eq!(table.resolve_constant("SPECIES_MR_MIME"), Some(3));
}

#[test]
fn test_load_text_bank_json_constants_uses_item_bank_specific_rules() {
    let content = bank_json(&["None", "EnergyPowder", "Up-Grade", "X Defend", "???", "DeepSeaTooth"]);
    let mut table = SymbolTable::new();
    let loaded = table
        .load_text_bank_json_constants(&content, "items.json", "ITEM_", None, GameLanguage::English)
        .unwrap();
    assert_eq!(loaded, 6);
    assert_eq!(table.resolve_constant("ITEM_NONE"), Some(0));
    assert_eq!(table.resolve_constant("ITEM_ENERGYPOWDER"), Some(1));
    assert_eq!(table.resolve_constant("ITEM_UPGRADE"), Some(2));
    assert_eq!(table.resolve_constant("ITEM_X_DEFENSE"), Some(3));
    assert_eq!(table.resolve_constant("ITEM_UNUSED_4"), Some(4));
    assert_eq!(table.resolve_constant("ITEM_DEEPSEATOOTH"), Some(5));
}

#[test]
fn test_load_text_bank_json_constants_uses_move_bank_specific_rules() {
    let content = bank_json(&["-", "DoubleSlap", "ViceGrip", "Will-O-Wisp", "U-turn", "X-Scissor"]);
    let mut table = SymbolTable::new();
    let loaded = table
        .load_text_bank_json_constants(&content, "moves.json", "MOVE_", None, GameLanguage::English)
        .unwrap();
    assert_eq!(loaded, 6);
    assert_eq!(table.resolve_constant("MOVE_NONE"), Some(0));
    assert_eq!(table.resolve_constant("MOVE_DOUBLE_SLAP"), Some(1));
    assert_eq!(table.resolve_constant("MOVE_VICE_GRIP"), Some(2));
    assert_eq!(table.resolve_constant("MOVE_WILL_O_WISP"), Some(3));
    assert_eq!(table.resolve_constant("MOVE_U_TURN"), Some(4));
    assert_eq!(table.resolve_constant("MOVE_X_SCISSOR"), Some(5));
}

#[test]
fn test_load_text_bank_json_constants_supports_index_suffixes_for_trainers() {
    let content = bank_json(&["{TRAINER_NAME: -}", "{TRAINER_NAME:Silver}", "{TRAINER_NAME:Amy & Mimi}"]);
    let mut table = SymbolTable::new();
    let loaded = table
        .load_text_bank_json_constants(&content, "trainers.json", "TRAINER_", Some(3), GameLanguage::English)
        .unwrap();
    assert_eq!(loaded, 3);
    assert_eq!(table.resolve_constant("TRAINER_NONE"), Some(0));
    assert_eq!(table.resolve_constant("TRAINER_SILVER_001"), Some(1));
    assert_eq!(table.resolve_constant("TRAINER_AMY_AND_MIMI_002"), Some(2));
}

#[test]
fn text_bank_display_names_pick_a_language_and_join_parts() {
    let text = |t: &str| JsonTree::Text(t.to_string());
    let message = vec![
        ("en_US".to_string(), text("Potion")),
        ("fr_FR".to_string(), JsonTree::List(vec![text("Po"), text("tion ")])),
        ("id".to_string(), text("msg_0001")),
    ];
    let fr = text_bank_display_name("b.json", 1, &message, GameLanguage::French).unwrap();
    assert_eq!(fr.as_deref(), Some("Potion"));
    let de = text_bank_display_name("b.json", 1, &message, GameLanguage::German).unwrap();
    assert_eq!(de.as_deref(), Some("Potion"));

    let only_other = vec![("id".to_string(), text("x")), ("zz".to_string(), JsonTree::Null)];
    assert_eq!(text_bank_display_name("b.json", 0, &only_other, GameLanguage::English).unwrap(), None);

    let bad_parts = vec![("en_US".to_string(), JsonTree::List(vec![text("a"), JsonTree::Bool(true)]))];
    let err = text_bank_display_name("b.json", 7, &bad_parts, GameLanguage::English).unwrap_err();
    assert_eq!(io_message(err), "Text bank JSON b.json has non-string 'messages[7]' content part 1");

    let bad_value = vec![("en_US".to_string(), JsonTree::Number("3".to_string()))];
    let err = text_bank_display_name("b.json", 2, &bad_value, GameLanguage::English).unwrap_err();
    assert_eq!(io_message(err), "Text bank JSON b.json has unsupported message text value at messages[2]");
}

#[test]
fn text_bank_constants_name_rules() {
    assert_eq!(canonicalize_text_bank_constant("???", "ITEM_", 9).as_deref(), Some("ITEM_UNUSED_9"));
    assert_eq!(canonicalize_text_bank_constant("ThunderPunch", "MOVE_", 1).as_deref(), Some("MOVE_THUNDER_PUNCH"));
    assert_eq!(canonicalize_text_bank_constant("ThunderPunch", "ITEM_", 1).as_deref(), Some("ITEM_THUNDERPUNCH"));
    assert_eq!(canonicalize_text_bank_constant("-", "SPECIES_", 3), None);
}

#[test]
fn test_load_headers_from_dir_propagates_text_bank_json_schema_errors() {
    let mut table = SymbolTable::new();
    let err = table.load_text_bank_json("{}", "bank.json").unwrap_err();
    let msg = io_message(err);
    assert!(msg.contains("messages"));
    assert!(msg.contains("object_events"));
}

#[test]
fn test_load_headers_from_dir_propagates_text_bank_json_entry_id_errors() {
    let mut table = SymbolTable::new();
    let content = r#"{ "messages": [ { "id": "MSG_HELLO" }, {} ] }"#;
    let err = table.load_text_bank_json(content, "bank.json").unwrap_err();
    assert!(io_message(err).contains("messages[1].id"));
    assert_eq!(table.resolve_constant("MSG_HELLO"), Some(0));
}

#[test]
fn text_bank_and_events_ids_are_indices() {
    let mut table = SymbolTable::new();
    let content = r#"{ "messages": [ { "en_US": "Hi" }, 7 ],
        "object_events": [ { "id": "LOCALID_A" }, { "id": "LOCALID_B", "x": 1 } ] }"#;
    assert_eq!(table.load_text_bank_json(content, "bank.json").unwrap(), 2);
    assert_eq!(table.resolve_constant("LOCALID_A"), Some(0));
    assert_eq!(table.resolve_constant("LOCALID_B"), Some(1));

    let mut events_table = SymbolTable::new();
    let err = events_table
        .load_events_json(r#"{ "object_events": [ { "id": "A" }, { "id": 3 } ] }"#, "events.json")
        .unwrap_err();
    assert_eq!(io_message(err), "Events JSON events.json has non-string or missing 'object_events[1].id'");
    assert_eq!(events_table.resolve_constant("A"), Some(0));
    let err = events_table.load_events_json(r#"{ "object_events": {} }"#, "events.json").unwrap_err();
    assert_eq!(io_message(err), "Events JSON events.json is missing an 'object_events' array");
    let mut fresh = SymbolTable::new();
    assert_eq!(fresh.load_events_json(r#"{ "object_events": [ { "id": "B" } ] }"#, "e.json").unwrap(), 1);
    assert_eq!(fresh.resolve_constant("B"), Some(0));
}

#[test]
fn text_bank_json_is_parsed_before_it_is_read() {
    let mut table = SymbolTable::new();
    let err = table.load_text_bank_json("{ \"messages\": [", "bank.json").unwrap_err();
    assert!(io_message(err).starts_with("Failed to parse text bank JSON bank.json: EOF while parsing"));
    let content = r#"{ "messages": [ { "id": "MSG_\u0041" } ] }"#;
    assert_eq!(table.load_text_bank_json(content, "bank.json").unwrap(), 1);
    assert_eq!(table.resolve_constant("MSG_A"), Some(0));
    let err = table.load_text_bank_json(r#"{ "messages": 5 }"#, "b.json").unwrap_err();
    assert_eq!(io_message(err), "Text bank JSON b.json has non-array 'messages' field");
    let err = table.load_text_bank_json(r#"{ "object_events": [ {} ] }"#, "b.json").unwrap_err();
    assert_eq!(io_message(err), "Text bank JSON b.json has non-string or missing 'object_events[0].id'");
    let err = table.load_events_json("[", "e.json").unwrap_err();
    assert!(io_message(err).starts_with("Failed to parse events JSON e.json: "));

    let mut constants = SymbolTable::new();
    let err = constants
        .load_text_bank_json_constants("[]", "c.json", "ITEM_", None, GameLanguage::English)
        .unwrap_err();
    assert_eq!(io_message(err), "Text bank JSON c.json is missing a 'messages' array");
    let err = constants
        .load_text_bank_json_constants(r#"{ "messages": [ 1 ] }"#, "c.json", "ITEM_", None, GameLanguage::English)
        .unwrap_err();
    assert_eq!(io_message(err), "Text bank JSON c.json has non-object 'messages[0]' entry");
    let err = constants
        .load_text_bank_json_constants("{", "c.json", "ITEM_", None, GameLanguage::English)
        .unwrap_err();
    assert!(io_message(err).starts_with("Failed to parse text bank JSON c.json: "));
    let content = r#"{ "messages": [ { "id": "x", "en_US": ["Poke", " Ball"] } ] }"#;
    let loaded = constants
        .load_text_bank_json_constants(content, "c.json", "ITEM_", None, GameLanguage::English)
        .unwrap();
    assert_eq!(loaded, 1);
    assert_eq!(constants.resolve_constant("ITEM_POKE_BALL"), Some(0));
}

/// A DSPRE sound name archive whose rows have the given English names.
fn sound_bank_json(names: &[String]) -> String {
    let messages: Vec<String> = names
        .iter()
        .enumerate()
        .map(|(i, n)| format!("{{ \"id\": \"msg_0545_{:05}\", \"en_US\": \"{}\" }}", i, n))
        .collect();
    format!("{{\n  \"messages\": [\n    {}\n  ]\n}}", messages.join(",\n    "))
}

#[test]
fn test_load_dspre_sound_archive_constants_uses_platinum_sound_id_ranges() {
    let mut names = vec!["UNUSED".to_string(); 1013];
    names[0] = "PV001".to_string();
    names[1] = "PV".to_string();
    names[2] = "PV-END".to_string();
    names[229] = "LAST-BGM".to_string();
    names[230] = "PL-W012".to_string();
    names[264] = "DUMMY01".to_string();
    names[287] = "DUMMY02".to_string();
    names[380] = "DP-SELECT".to_string();
    let content = sound_bank_json(&names);
    let mut table = SymbolTable::new();
    let loaded = table
        .load_dspre_sound_archive_constants(&content, "pt_sounds.json", GameLanguage::English)
        .unwrap();
    assert_eq!(loaded, 1013);
    assert_eq!(table.resolve_constant("SEQ_PV001"), Some(1));
    assert_eq!(table.resolve_constant("SEQ_LAST_BGM"), Some(1226));
    assert_eq!(table.resolve_constant("SEQ_SE_PL_W012"), Some(1350));
    assert_eq!(table.resolve_constant("SEQ_DUMMY01"), Some(1384));
    assert_eq!(table.resolve_constant("SEQ_DUMMY02"), Some(1407));
    assert_eq!(table.resolve_constant("SEQ_SE_DP_SELECT"), Some(1500));
    assert_eq!(table.resolve_constant("SEQ_SE_CONFIRM"), Some(1500));
    assert_eq!(table.constant_family("SEQ_SE_DP_SELECT"), Some(ConstantFamily::Sound));
    assert_eq!(table.constant_family("SEQ_SE_CONFIRM"), Some(ConstantFamily::Sound));
}

#[test]
fn test_load_dspre_sound_archive_constants_uses_hgss_sound_id_ranges() {
    let mut names = vec!["UNUSED".to_string(); 1372];
    names[0] = "PV001".to_string();
    names[1] = "PV".to_string();
    names[2] = "PV-END".to_string();
    names[364] = "LAST-BGM".to_string();
    names[365] = "PL-W012".to_string();
    names[401] = "DUMMY01".to_string();
    names[493] = "DP-SELECT".to_string();
    let content = sound_bank_json(&names);
    let mut table = SymbolTable::new();
    let loaded = table
        .load_dspre_sound_archive_constants(&content, "hg_sounds.json", GameLanguage::English)
        .unwrap();
    assert_eq!(loaded, 1372);
    assert_eq!(table.resolve_constant("SEQ_PV001"), Some(1));
    assert_eq!(table.resolve_constant("SEQ_LAST_BGM"), Some(1361));
    assert_eq!(table.resolve_constant("SEQ_SE_PL_W012"), Some(1372));
    assert_eq!(table.resolve_constant("SEQ_DUMMY01"), Some(1408));
    assert_eq!(table.resolve_constant("SEQ_SE_DP_SELECT"), Some(1500));
    assert_eq!(table.resolve_constant("SEQ_SE_CONFIRM"), Some(1500));
    assert_eq!(table.constant_family("SEQ_SE_DP_SELECT"), Some(ConstantFamily::Sound));
    assert_eq!(table.constant_family("SEQ_SE_CONFIRM"), Some(ConstantFamily::Sound));
}

#[test]
fn sound_archives_of_unknown_size_and_bad_messages_are_refused() {
    let mut table = SymbolTable::new();
    let content = sound_bank_json(&["A".to_string(), "B".to_string()]);
    let err = table
        .load_dspre_sound_archive_constants(&content, "s.json", GameLanguage::English)
        .unwrap_err();
    assert_eq!(io_message(err), "unsupported sound archive with 2 rows");
    let err = table.load_dspre_sound_archive_constants("{}", "s.json", GameLanguage::English).unwrap_err();
    assert_eq!(io_message(err), "s.json: missing 'messages' array");
    let err = table
        .load_dspre_sound_archive_constants(r#"{ "messages": [ {}, "x" ] }"#, "s.json", GameLanguage::English)
        .unwrap_err();
    assert_eq!(io_message(err), "s.json: messages[1] is not an object");
    let err = table.load_dspre_sound_archive_constants("{ \"messages\": ", "s.json", GameLanguage::English).unwrap_err();
    assert!(io_message(err).starts_with("s.json: EOF while parsing"));
}

#[test]
fn resolve_names_lists_matching_names_shortest_first() {
    let mut table = SymbolTable::new();
    table.insert_define("ITEM_POTION".to_string(), 17);
    table.insert_define("ITEM_X".to_string(), 17);
    table.insert_define("MOVE_POUND".to_string(), 17);
    table.insert_define("ITEM_POTION".to_string(), 17);
    table.insert_define("ITEM_OTHER".to_string(), 3);
    assert_eq!(table.resolve_names(17, &["ITEM_"]), vec!["ITEM_X".to_string(), "ITEM_POTION".to_string()]);
    let all = table.resolve_names(17, &[]);
    assert_eq!(all.len(), 3);
    assert_eq!(all[0], "ITEM_X");
    assert!(all.contains(&"MOVE_POUND".to_string()));
    assert!(table.resolve_names(5, &[]).is_empty());
}

#[test]
fn test_constant_family_metadata_and_family_specific_resolution() {
    let mut table = SymbolTable::new();
    table
        .load_header_str(
            "\
#define SPECIES_BULBASAUR 1
#define ITEM_MASTER_BALL 1
#define TRAINER_RIVAL_BARRY_001 2
#define TRAINER_CLASS_LEADER_ROARK 2
#define LOCATION_JUBILIFE_CITY 3
#define MAPSEC_JUBILIFE_CITY 4
#define MOVE_TACKLE 5
#define SEQ_SE_CONFIRM 6
",
        )
        .unwrap();

    assert_eq!(table.constant_family("SPECIES_BULBASAUR"), Some(ConstantFamily::Species));
    assert_eq!(table.constant_family("ITEM_MASTER_BALL"), Some(ConstantFamily::Item));
    assert_eq!(table.constant_family("TRAINER_RIVAL_BARRY_001"), Some(ConstantFamily::Trainer));
    assert_eq!(table.constant_family("TRAINER_CLASS_LEADER_ROARK"), Some(ConstantFamily::TrainerClass));
    assert_eq!(table.constant_family("LOCATION_JUBILIFE_CITY"), Some(ConstantFamily::Location));
    assert_eq!(table.constant_family("MAPSEC_JUBILIFE_CITY"), Some(ConstantFamily::Location));
    assert_eq!(table.constant_family("MOVE_TACKLE"), Some(ConstantFamily::Move));
    assert_eq!(table.constant_family("SEQ_SE_CONFIRM"), Some(ConstantFamily::Sound));
    assert_eq!(table.constant_family("TRUE"), None);

    assert_eq!(table.resolve_name_in_family(1, ConstantFamily::Species), Some("SPECIES_BULBASAUR".to_string()));
    assert_eq!(table.resolve_name_in_family(1, ConstantFamily::Item), Some("ITEM_MASTER_BALL".to_string()));
    assert_eq!(table.resolve_name_in_family(2, ConstantFamily::Trainer), Some("TRAINER_RIVAL_BARRY_001".to_string()));
    assert_eq!(
        table.resolve_name_in_family(2, ConstantFamily::TrainerClass),
        Some("TRAINER_CLASS_LEADER_ROARK".to_string())
    );
}

#[test]
fn header_enum_counts_from_explicit_values() {
    let mut table = SymbolTable::new();
    table
        .load_header_str_with_tag("enum Dir {\n    DIR_NORTH,\n    DIR_SOUTH,\n    DIR_WEST = 10,\n    DIR_EAST,\n};\n", "dir.h")
        .unwrap();
    assert_eq!(table.resolve_constant("DIR_NORTH"), Some(0));
    assert_eq!(table.resolve_constant("DIR_SOUTH"), Some(1));
    assert_eq!(table.resolve_constant("DIR_WEST"), Some(10));
    assert_eq!(table.resolve_constant("DIR_EAST"), Some(11));
}

#[test]
fn header_defines_literals_names_and_expressions() {
    let mut table = SymbolTable::new();
    table
        .load_header_str(
            "#define HEX_VALUE 0x1F\n#define NEG_VALUE -3\n#define ALIAS HEX_VALUE\n#define SUM (HEX_VALUE + NEG_VALUE) * 2\n",
        )
        .unwrap();
    assert_eq!(table.resolve_constant("HEX_VALUE"), Some(31));
    assert_eq!(table.resolve_constant("NEG_VALUE"), Some(-3));
    assert_eq!(table.resolve_constant("ALIAS"), Some(31));
    assert_eq!(table.resolve_constant("SUM"), Some(56));
}

#[test]
fn header_defines_use_earlier_unevaluated_definitions() {
    let mut table = SymbolTable::new();
    table.load_header_str("#define LATER_BASE LATER + 1\n").unwrap();
    assert_eq!(table.resolve_constant("LATER_BASE"), None);
    table.load_header_str_with_tag("#define LATER 2\n#define USES_BASE LATER_BASE * 10\n", "second.h").unwrap();
    assert_eq!(table.resolve_constant("LATER"), Some(2));
    assert_eq!(table.resolve_constant("USES_BASE"), Some(30));
}

#[test]
fn header_enum_then_defines_over_it() {
    let mut table = SymbolTable::new();
    table
        .load_header_str("enum {\n    FIRST = 4,\n    SECOND,\n};\n#define AFTER_SECOND SECOND + 1\n#define UNKNOWN_REF MISSING\n")
        .unwrap();
    assert_eq!(table.resolve_constant("FIRST"), Some(4));
    assert_eq!(table.resolve_constant("SECOND"), Some(5));
    assert_eq!(table.resolve_constant("AFTER_SECOND"), Some(6));
    assert_eq!(table.resolve_constant("UNKNOWN_REF"), None);
}

#[test]
fn test_function_macro_expression_resolution() {
    let mut table = SymbolTable::new();
    table.load_header_str_with_tag("#define MAPLOC(sec) ((sec) % 1000)", "map_sections.h").unwrap();
    table
        .load_header_str_with_tag("#define METLOC_PRIMO 2001\n#define PRIMO_LOC MAPLOC(METLOC_PRIMO)", "main.h")
        .unwrap();

    assert_eq!(table.resolve_constant("PRIMO_LOC"), Some(1));
    assert_eq!(table.evaluate_expression("MAPLOC(METLOC_PRIMO)"), Some(1));
}

#[test]
fn test_function_macro_expression_resolution_with_nested_args() {
    let mut table = SymbolTable::new();
    table.load_header_str_with_tag("#define MAPLOC(sec) ((sec) % 1000)", "map_sections.h").unwrap();
    table.load_header_str_with_tag("#define METLOC_PRIMO 2001", "main.h").unwrap();

    assert_eq!(table.evaluate_expression("MAPLOC(METLOC_PRIMO + 1000)"), Some(1));
}

#[test]
fn header_define_pointing_forward_resolves_on_lookup() {
    let mut table = SymbolTable::new();
    table.load_header_str("#define A (B + 1)\n#define B 2\n").unwrap();
    assert_eq!(table.resolve_constant("A"), Some(3));
    assert_eq!(table.evaluate_expression("A * 2"), Some(6));
}

#[test]
fn function_macros_nest_and_check_arguments() {
    let mut table = SymbolTable::new();
    table
        .load_header_str("#define TWICE(x) ((x) * 2)\n#define ADD(a, b) ((a) + (b))\n#define BASE 5\n")
        .unwrap();
    assert_eq!(table.evaluate_expression("ADD(TWICE(BASE), 1)"), Some(11));
    assert_eq!(table.evaluate_expression("TWICE (3)"), Some(6));
    assert_eq!(table.evaluate_expression("ADD(1)"), None);
    assert_eq!(table.evaluate_expression("TWICE(3"), None);
}

#[test]
fn resolve_all_enters_forward_defines_as_constants() {
    let mut table = SymbolTable::new();
    table.load_header_str("#define A (B + 1)\n#define B 2\n#define C MISSING\n").unwrap();
    table.resolve_all();
    let all = table.get_all_defines();
    assert!(all.iter().any(|(n, v)| n == "A" && *v == 3));
    assert!(!all.iter().any(|(n, _)| n == "C"));
    assert_eq!(table.resolve_constant("A"), Some(3));
    assert_eq!(table.resolve_constant("C"), None);
}

#[test]
fn extend_gives_the_other_tables_definitions_priority() {
    let mut first = SymbolTable::new();
    first.insert_define("X".to_string(), 1);
    first.load_header_str("#define LATE (Y * 10)\n").unwrap();
    let mut second = SymbolTable::new();
    second.insert_define("X".to_string(), 2);
    second.load_header_str("#define Y 3\n#define SQUARE(v) ((v) * (v))\n").unwrap();
    first.extend(second);
    assert_eq!(first.resolve_constant("X"), Some(2));
    assert_eq!(first.resolve_constant("LATE"), Some(30));
    assert_eq!(first.evaluate_expression("SQUARE(X)"), Some(4));
}

#[test]
fn test_load_list_file_str_supports_comparison_and_logical_expression() {
    let mut table = SymbolTable::new();
    table.load_list_file_str("CONST_A = 1 < 2\nCONST_B = CONST_A && 0\n").unwrap();
    assert_eq!(table.resolve_constant("CONST_A"), Some(1));
    assert_eq!(table.resolve_constant("CONST_B"), Some(0));
}

#[test]
fn test_load_list_file_str_supports_logical_short_circuit() {
    let mut table = SymbolTable::new();
    table.load_list_file_str("CONST_A = 0 && UNKNOWN_SYMBOL\nCONST_B = 1 || UNKNOWN_SYMBOL\n").unwrap();
    assert_eq!(table.resolve_constant("CONST_A"), Some(0));
    assert_eq!(table.resolve_constant("CONST_B"), Some(1));
}

#[test]
fn test_load_python_enum_str_supports_comparison_and_logical_expression() {
    let mut table = SymbolTable::new();
    table
        .load_python_enum_str_with_tag("SPECIES_OK = 1 < 2\nSPECIES_BOOL = SPECIES_OK && 0\n", "inline.py")
        .unwrap();
    assert_eq!(table.resolve_constant("SPECIES_OK"), Some(1));
    assert_eq!(table.resolve_constant("SPECIES_BOOL"), Some(0));
}

#[test]
fn test_load_python_enum_str_supports_logical_short_circuit() {
    let mut table = SymbolTable::new();
    table
        .load_python_enum_str_with_tag("SPECIES_A = 0 && UNKNOWN_SYMBOL\nSPECIES_B = 1 || UNKNOWN_SYMBOL\n", "inline.py")
        .unwrap();
    assert_eq!(table.resolve_constant("SPECIES_A"), Some(0));
    assert_eq!(table.resolve_constant("SPECIES_B"), Some(1));
}

#[test]
fn list_file_comparisons_bind_as_in_c() {
    let mut table = SymbolTable::new();
    table
        .load_list_file_str("A = 1 | 2 == 2\nB = 3 >= 3 && 2 != 2 || 5 <= 4 + 1\nC = (1 < 2) + 1\nD = 1 << 2 > 3\n")
        .unwrap();
    assert_eq!(table.resolve_constant("A"), Some(1));
    assert_eq!(table.resolve_constant("B"), Some(1));
    assert_eq!(table.resolve_constant("C"), Some(2));
    assert_eq!(table.resolve_constant("D"), Some(1));
}

#[test]
fn header_defines_keep_comparisons_unsupported() {
    let mut table = SymbolTable::new();
    table.load_header_str("#define CMP (1 < 2)\n").unwrap();
    assert_eq!(table.resolve_constant("CMP"), None);
}
