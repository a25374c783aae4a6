use uxie_verified::c_parser::armips_equ::{is_equ_source_extension, parse_armips_equ_str, parse_armips_equ_texts};
use uxie_verified::c_parser::symbol_table::SymbolTable;

#[test]
fn parse_gnu_equ_simple() {
    let mut table = SymbolTable::new();
    let n = parse_armips_equ_str(".equ FLAG_UNK, 0x3C3\n.equ VAR_TEMP, 42\n", "test.s", &mut table).unwrap();
    assert_eq!(n, 2);
    assert_eq!(table.resolve_constant("FLAG_UNK"), Some(0x3C3));
    assert_eq!(table.resolve_constant("VAR_TEMP"), Some(42));
}

#[test]
fn parse_armips_equ_simple() {
    let mut table = SymbolTable::new();
    let n = parse_armips_equ_str("ITEM_MASTER_BALL equ 1\nITEM_POTION equ 17\n", "test.inc", &mut table).unwrap();
    assert_eq!(n, 2);
    assert_eq!(table.resolve_constant("ITEM_MASTER_BALL"), Some(1));
    assert_eq!(table.resolve_constant("ITEM_POTION"), Some(17));
}

#[test]
fn parse_mixed_formats() {
    let mut table = SymbolTable::new();
    let n = parse_armips_equ_str(".equ CONST_A, 100\nCONST_B equ 200\n.equ CONST_C, 300\n", "test.s", &mut table)
        .unwrap();
    assert_eq!(n, 3);
    assert_eq!(table.resolve_constant("CONST_A"), Some(100));
    assert_eq!(table.resolve_constant("CONST_B"), Some(200));
    assert_eq!(table.resolve_constant("CONST_C"), Some(300));
}

#[test]
fn skip_comments_and_blanks() {
    let mut table = SymbolTable::new();
    let n = parse_armips_equ_str(
        "; this is a comment\n\n.equ FLAG_A, 1 ; inline comment\n\nFLAG_B equ 2\n",
        "test.s",
        &mut table,
    )
    .unwrap();
    assert_eq!(n, 2);
    assert_eq!(table.resolve_constant("FLAG_A"), Some(1));
    assert_eq!(table.resolve_constant("FLAG_B"), Some(2));
}

#[test]
fn expression_evaluation() {
    let mut table = SymbolTable::new();
    table.insert_define("BASE".to_string(), 100);
    let n = parse_armips_equ_str(".equ DERIVED, BASE + 50\n.equ SHIFTED, 1 << 3\n", "test.s", &mut table).unwrap();
    assert_eq!(n, 2);
    assert_eq!(table.resolve_constant("DERIVED"), Some(150));
    assert_eq!(table.resolve_constant("SHIFTED"), Some(8));
}

#[test]
fn skips_already_defined_constants() {
    let mut table = SymbolTable::new();
    table.insert_define("ALREADY".to_string(), 999);
    let n = parse_armips_equ_str(".equ ALREADY, 1\n.equ NEW, 2\n", "test.s", &mut table).unwrap();
    assert_eq!(n, 1);
    assert_eq!(table.resolve_constant("ALREADY"), Some(999));
    assert_eq!(table.resolve_constant("NEW"), Some(2));
}

#[test]
fn bad_expression_returns_error() {
    let mut table = SymbolTable::new();
    let result = parse_armips_equ_str(".equ BAD, UNDEFINED_SYMBOL + 1\n", "test.s", &mut table);
    assert!(result.is_ok());
    assert_eq!(result.unwrap(), 0);
    assert_eq!(table.resolve_constant("BAD"), None);
}

#[test]
fn forward_references_resolve_in_multipass() {
    let mut table = SymbolTable::new();
    let n = parse_armips_equ_str(
        "\
.equ CONTESTANT_TYPE_PLAYER, BATTLER_TYPE_MAX + BATTLER_TYPE_SOLO_PLAYER
.equ BATTLER_TYPE_SOLO_PLAYER, 1
.equ BATTLER_TYPE_TAG_PARTNER, 2
.equ BATTLER_TYPE_MAX, BATTLER_TYPE_TAG_PARTNER
",
        "test.s",
        &mut table,
    )
    .unwrap();
    assert_eq!(n, 4);
    assert_eq!(table.resolve_constant("BATTLER_TYPE_SOLO_PLAYER"), Some(1));
    assert_eq!(table.resolve_constant("BATTLER_TYPE_MAX"), Some(2));
    assert_eq!(table.resolve_constant("CONTESTANT_TYPE_PLAYER"), Some(3));
}

#[test]
fn circular_dependency_is_skipped_with_warning() {
    let mut table = SymbolTable::new();
    let result = parse_armips_equ_str(".equ A, B + 1\n.equ B, A + 1\n", "test.s", &mut table);
    assert!(result.is_ok());
    assert_eq!(result.unwrap(), 0);
}

#[test]
fn parse_armips_equ_hex_values() {
    let mut table = SymbolTable::new();
    let n = parse_armips_equ_str(".equ START_ADDRESS, 0x10\n.equ OVERLAY_ID, 0x81\n", "test.s", &mut table).unwrap();
    assert_eq!(n, 2);
    assert_eq!(table.resolve_constant("START_ADDRESS"), Some(16));
    assert_eq!(table.resolve_constant("OVERLAY_ID"), Some(129));
}

#[test]
fn parse_armips_equ_negative_values() {
    let mut table = SymbolTable::new();
    let n = parse_armips_equ_str(".equ NEG_VAL, -1\n.equ NEG_HEX, -0x80\n", "test.s", &mut table).unwrap();
    assert_eq!(n, 2);
    assert_eq!(table.resolve_constant("NEG_VAL"), Some(-1));
    assert_eq!(table.resolve_constant("NEG_HEX"), Some(-128));
}

#[test]
fn parse_armips_equ_with_expression_chaining() {
    let mut table = SymbolTable::new();
    table.insert_define("BASE_ADDR".to_string(), 0x02000000);
    let n = parse_armips_equ_str(
        ".equ HEAP_ADDR, BASE_ADDR + 0x1000\n.equ STACK_ADDR, HEAP_ADDR + 0x800\n",
        "test.s",
        &mut table,
    )
    .unwrap();
    assert_eq!(n, 2);
    assert_eq!(table.resolve_constant("HEAP_ADDR"), Some(0x02001000));
    assert_eq!(table.resolve_constant("STACK_ADDR"), Some(0x02001800));
}

#[test]
fn cross_file_forward_references_resolve() {
    let texts = vec![
        ".equ CONTESTANT_TYPE_PLAYER, BATTLER_TYPE_MAX + BATTLER_TYPE_SOLO_PLAYER\n".to_string(),
        ".equ BATTLER_TYPE_SOLO_PLAYER, 0x0\n.equ BATTLER_TYPE_MAX, 0x2\n".to_string(),
    ];
    let mut table = SymbolTable::new();
    let n = parse_armips_equ_texts(&texts, &mut table).unwrap();
    assert_eq!(n, 3);
    assert_eq!(table.resolve_constant("BATTLER_TYPE_SOLO_PLAYER"), Some(0));
    assert_eq!(table.resolve_constant("BATTLER_TYPE_MAX"), Some(2));
    assert_eq!(table.resolve_constant("CONTESTANT_TYPE_PLAYER"), Some(2));
}

#[test]
fn equ_known_name_keeps_its_value() {
    let mut table = SymbolTable::new();
    table.insert_define("KNOWN".to_string(), 7);
    let n = parse_armips_equ_str("KNOWN equ 1\nLATER equ KNOWN * 2\n", "test.s", &mut table).unwrap();
    assert_eq!(n, 1);
    assert_eq!(table.resolve_constant("KNOWN"), Some(7));
    assert_eq!(table.resolve_constant("LATER"), Some(14));
    assert_eq!(table.get_all_defines().len(), 4);
}

#[test]
fn equ_double_slash_comment_and_crlf() {
    let mut table = SymbolTable::new();
    let n = parse_armips_equ_str(".equ X, 5 // five\r\nY equ X + 1\r\n", "test.s", &mut table).unwrap();
    assert_eq!(n, 2);
    assert_eq!(table.resolve_constant("X"), Some(5));
    assert_eq!(table.resolve_constant("Y"), Some(6));
}

#[test]
fn equ_malformed_lines_are_ignored() {
    let mut table = SymbolTable::new();
    let n = parse_armips_equ_str(
        ".equ NOCOMMA 1\n.equ TRAILING,\n.equate X, 1\n1BAD equ 2\nNOVALUE equ\nNAME equals 3\n",
        "test.s",
        &mut table,
    )
    .unwrap();
    assert_eq!(n, 0);
}

#[test]
fn equ_same_name_twice_keeps_first() {
    let mut table = SymbolTable::new();
    let n = parse_armips_equ_str(".equ DUP, 1\n.equ DUP, 2\n", "test.s", &mut table).unwrap();
    assert_eq!(n, 1);
    assert_eq!(table.resolve_constant("DUP"), Some(1));
}

#[test]
fn equ_source_extensions() {
    assert!(is_equ_source_extension("s"));
    assert!(is_equ_source_extension("S"));
    assert!(is_equ_source_extension("inc"));
    assert!(is_equ_source_extension("INC"));
    assert!(!is_equ_source_extension("txt"));
    assert!(!is_equ_source_extension("bin"));
    assert!(!is_equ_source_extension(""));
}
