use uxie_verified::c_parser::symbol_table::SymbolTable;
use uxie_verified::error::ErrorKind;
use uxie_verified::game::GameFamily;
use uxie_verified::map_header::c_format::{parse_map_headers_from_c, parsed_to_hgss_header, parsed_to_pt_header};
use uxie_verified::map_header::json_format::MapHeaderJson;
use uxie_verified::map_header::{
    read_map_header_from_bytes, write_map_header_to_bytes, MapHeader, MapHeaderDP, MapHeaderPt, MAP_HEADER_SIZE,
};

#[test]
fn test_pt_header_roundtrip() {
    let original = MapHeader::Pt(MapHeaderPt {
        area_data_id: 0x06,
        unknown1: 0x00,
        matrix_id: 0x00,
        script_file_id: 0x0100,
        level_script_id: 0x0200,
        text_archive_id: 0x0005,
        music_day_id: 0x0400,
        music_night_id: 0x0401,
        wild_pokemon: 0xFFFF,
        event_file_id: 0x0003,
        location_name: 0x03,
        area_icon: 0x01,
        weather_id: 0x00,
        camera_angle_id: 0x00,
        location_specifier: 0x01,
        battle_background: 0x02,
        flags: 0x0F,
    });
    let bytes = write_map_header_to_bytes(&original);
    assert_eq!(bytes.len(), MAP_HEADER_SIZE);
    let parsed = read_map_header_from_bytes(&bytes, GameFamily::Platinum).unwrap();
    assert_eq!(original, parsed);
    assert_eq!(parsed.script_file_id(), 0x0100);
    assert_eq!(parsed.area_data_id(), 0x06);
}

#[test]
fn map_header_short_input_is_error() {
    assert!(read_map_header_from_bytes(&[0u8; 23], GameFamily::HGSS).is_err());
}

#[test]
fn test_parse_single_header() {
    let source = r"
    [MAP_HEADER_JUBILIFE_CITY] = {
        .areaDataArchiveID = 0x6,
        .unk_01 = 0x0,
        .mapMatrixID = 0x0,
        .scriptsArchiveID = scripts_jubilife_city,
        .msgArchiveID = TEXT_BANK_JUBILIFE_CITY,
        .dayMusicID = SEQ_CITY01_D,
        .isBikeAllowed = TRUE,
        .isRunningAllowed = TRUE,
    },
        ";
    let headers = parse_map_headers_from_c(source);
    assert_eq!(headers.len(), 1);
    assert_eq!(headers[0].name, "MAP_HEADER_JUBILIFE_CITY");
    assert_eq!(headers[0].field("areaDataArchiveID"), Some("0x6".to_string()));
    assert_eq!(headers[0].index, None);
}

#[test]
fn test_parse_hgss_header_conversion() {
    let source = r"
    [MAP_EVERYWHERE] = {
        .wildEncounterBank = 1,
        .areaDataBank = 2,
        .moveModelBank = 3,
        .worldMapX = 4,
        .worldMapY = 5,
        .matrixId = 6,
        .scriptsBank = 7,
        .scriptHeaderBank = 8,
        .msgBank = 9,
        .dayMusicId = 10,
        .nightMusicId = 11,
        .eventsBank = 12,
        .mapsec = 13,
        .areaIcon = 14,
        .momCallIntroParam = 15,
        .isKanto = TRUE,
        .weather = 16,
        .mapType = 17,
        .cameraType = 18,
        .followMode = 2,
        .battleBg = 19,
        .bikeAllowed = TRUE,
        .runningAllowed_Unused = FALSE,
        .escapeRopeAllowed = TRUE,
        .flyAllowed = FALSE,
        .outgoingCalls = TRUE,
        .incomingCalls = FALSE,
        .radioSignal = TRUE,
    },
        ";
    let headers = parse_map_headers_from_c(source);
    assert_eq!(headers.len(), 1);
    let symbols = SymbolTable::new();
    let h = parsed_to_hgss_header(&headers[0], &symbols).unwrap();
    assert_eq!(h.wild_pokemon, 1);
    assert_eq!(h.area_data_id, 2);
    assert_eq!(h.unknown0, 3);
    assert_eq!(h.worldmap_x, 4);
    assert_eq!(h.worldmap_y, 5);
    assert_eq!(h.matrix_id, 6);
    assert_eq!(h.script_file_id, 7);
    assert_eq!(h.level_script_id, 8);
    assert_eq!(h.text_archive_id, 9);
    assert_eq!(h.event_file_id, 12);
    assert_eq!(h.location_name, 13);
    assert_eq!(h.area_icon, 14);
    assert_eq!(h.unknown1, 15);
    assert!(h.kanto_flag);
    assert_eq!(h.weather_id, 16);
    assert_eq!(h.location_type, 17);
    assert_eq!(h.camera_angle_id, 18);
    assert_eq!(h.follow_mode, 2);
    assert_eq!(h.battle_background, 19);
    assert_eq!(h.flags, 0x55);
}

#[test]
fn test_parsed_to_pt_header_invalid_literal_returns_error() {
    let source = r"
    [MAP_HEADER_BAD] = {
        .scriptsArchiveID = not-a-valid-literal,
    },
        ";
    let headers = parse_map_headers_from_c(source);
    let symbols = SymbolTable::new();
    let err = parsed_to_pt_header(&headers[0], &symbols).unwrap_err();
    assert_eq!(err.kind(), ErrorKind::InvalidData);
    assert!(err.message().contains("MAP_HEADER_BAD"));
    assert!(err.message().contains("scriptsArchiveID"));
    assert!(err.message().contains("invalid integer literal 'not-a-valid-literal': invalid digit found in string"));
}

#[test]
fn test_parsed_to_hgss_header_invalid_boolean_symbol_returns_error() {
    let source = r"
    [MAP_HEADER_BAD_HG] = {
        .bikeAllowed = MAYBE_ENABLED,
    },
        ";
    let headers = parse_map_headers_from_c(source);
    let symbols = SymbolTable::new();
    let err = parsed_to_hgss_header(&headers[0], &symbols).unwrap_err();
    assert_eq!(err.kind(), ErrorKind::InvalidData);
    assert!(err.message().contains("MAP_HEADER_BAD_HG"));
    assert!(err.message().contains("bikeAllowed"));
}

#[test]
fn pt_header_from_c_with_symbols_hex_and_flags() {
    let source = "[MAP_HEADER_X] = { .areaDataArchiveID = 0x1FF, .dayMusicID = SEQ_TOWN, .weather = -1, .isFlyAllowed = 1, .isBikeAllowed = FLAG_ON }\n[lowercase] = { .weather = 3 }\n[MAP_HEADER_Y] = { .mapMatrixID = 70000 }";
    let headers = parse_map_headers_from_c(source);
    assert_eq!(headers.len(), 2);
    let mut symbols = SymbolTable::new();
    symbols.insert_define("SEQ_TOWN".to_string(), 1010);
    symbols.insert_define("FLAG_ON".to_string(), 5);
    let h = parsed_to_pt_header(&headers[0], &symbols).unwrap();
    assert_eq!(h.area_data_id, 0xFF);
    assert_eq!(h.music_day_id, 1010);
    assert_eq!(h.weather_id, 0xFF);
    assert_eq!(h.flags, 0b1001);
    let y = parsed_to_pt_header(&headers[1], &symbols).unwrap();
    assert_eq!(y.matrix_id, (70000u32 & 0xFFFF) as u16);
}

#[test]
fn map_header_c_later_field_overrides_and_hex_errors() {
    let headers = parse_map_headers_from_c("[A] = { .weather = 1, .weather = 2, .mapType = 0x }");
    assert_eq!(headers[0].field("weather"), Some("2".to_string()));
    let err = parsed_to_pt_header(&headers[0], &SymbolTable::new()).unwrap_err();
    assert!(err.message().contains("invalid hexadecimal literal '0x': cannot parse integer from empty string"));
    let big = parse_map_headers_from_c("[B] = { .weather = 99999999999999999999 }");
    let err = parsed_to_pt_header(&big[0], &SymbolTable::new()).unwrap_err();
    assert!(err.message().contains("number too large to fit in target type"));
}

#[test]
fn test_map_header_resolution() {
    let mut symbols = SymbolTable::new();
    symbols.insert_define("MAPSEC_JUBILIFE_CITY".into(), 6);
    symbols.insert_define("SEQ_CITY01_D".into(), 1010);
    symbols.insert_define("CAMERA_TYPE_DEFAULT".into(), 0);
    let mut header = MapHeaderJson {
        id: None,
        music_day_id: Some("SEQ_CITY01_D".into()),
        music_night_id: None,
        wild_pokemon: None,
        event_file_id: None,
        text_archive_id: None,
        location_name: Some("MAPSEC_JUBILIFE_CITY".into()),
        area_icon: None,
        weather_id: None,
        camera_angle_id: Some("CAMERA_TYPE_DEFAULT".into()),
        battle_background: Some("UNKNOWN".into()),
        flags: None,
    };
    header.resolve_constants(&symbols);
    assert_eq!(header.location_name, Some("6".into()));
    assert_eq!(header.music_day_id, Some("1010".into()));
    assert_eq!(header.camera_angle_id, Some("0".into()));
    assert_eq!(header.battle_background, Some("UNKNOWN".into()));
}

#[test]
fn map_header_json_from_binary_names_and_numbers() {
    let mut symbols = SymbolTable::new();
    symbols.insert_define("SEQ_CITY01_D".into(), 1010);
    symbols.insert_define("OVERWORLD_WEATHER_CLEAR".into(), 0);
    let dp = MapHeader::DP(MapHeaderDP {
        area_data_id: 1,
        unknown1: 0,
        matrix_id: 0,
        script_file_id: 2,
        level_script_id: 3,
        text_archive_id: 4,
        music_day_id: 1010,
        music_night_id: 1011,
        wild_pokemon: 7,
        event_file_id: 8,
        location_name: 300,
        weather_id: 0,
        camera_angle_id: 1,
        location_specifier: 0,
        battle_background: 2,
        flags: 5,
    });
    let j = MapHeaderJson::from_binary(&dp, &symbols);
    assert_eq!(j.id, None);
    assert_eq!(j.music_day_id, Some("SEQ_CITY01_D".into()));
    assert_eq!(j.music_night_id, Some("1011".into()));
    assert_eq!(j.location_name, Some("300".into()));
    assert_eq!(j.area_icon, None);
    assert_eq!(j.weather_id, Some("OVERWORLD_WEATHER_CLEAR".into()));
    assert_eq!(j.flags, Some("5".into()));
}
