use uxie_verified::c_parser::symbol_table::SymbolTable;
use uxie_verified::encounter_file::json::{EncounterEntryJson, JsonEncounterFile, WaterEncounterEntryJson};
use uxie_verified::encounter_file::{BinaryEncounterFile, EncounterEntry, WaterEncounterEntry};
use uxie_verified::error::ErrorKind;
use uxie_verified::game::GameFamily;

fn build_dppt_fixture() -> BinaryEncounterFile {
    let grass: [EncounterEntry; 12] =
        core::array::from_fn(|i| EncounterEntry { level: (i + 1) as u8, species: i as u32 + 1 });
    let water: [WaterEncounterEntry; 5] = core::array::from_fn(|i| WaterEncounterEntry {
        min_level: (i + 1) as u8,
        max_level: (i + 6) as u8,
        species: i as u32 + 100,
    });
    BinaryEncounterFile {
        walking_rate: 30,
        grass_encounters: grass,
        swarm_encounters: [1, 2, 0, 0],
        day_encounters: [3, 4, 0, 0, 0, 0, 0, 0, 0, 0, 0, 0],
        night_encounters: [5, 6, 0, 0, 0, 0, 0, 0, 0, 0, 0, 0],
        radar_encounters: [7, 8, 9, 10],
        music_encounters: [0, 0, 0, 0],
        form_encounter_rates: [0, 0, 0, 0, 0],
        unown_table_id: 0,
        dual_slot_ruby: [11, 12],
        dual_slot_sapphire: [13, 14],
        dual_slot_emerald: [15, 16],
        dual_slot_firered: [17, 18],
        dual_slot_leafgreen: [19, 20],
        surf_rate: 10,
        surf_encounters: water,
        old_rod_rate: 5,
        old_rod_encounters: water,
        good_rod_rate: 15,
        good_rod_encounters: water,
        super_rod_rate: 20,
        super_rod_encounters: water,
        rock_smash_rate: 0,
        rock_smash_encounters: [WaterEncounterEntry::default(); 2],
        morning_encounters: [EncounterEntry::default(); 12],
    }
}

fn build_hgss_fixture() -> BinaryEncounterFile {
    let morning: [EncounterEntry; 12] =
        core::array::from_fn(|i| EncounterEntry { level: (i + 2) as u8, species: (i + 1) as u32 });
    let day: [u32; 12] = core::array::from_fn(|i| (i + 20) as u32);
    let night: [u32; 12] = core::array::from_fn(|i| (i + 40) as u32);
    let water = |lo: usize, hi: usize, base: usize| -> [WaterEncounterEntry; 5] {
        core::array::from_fn(|i| WaterEncounterEntry {
            min_level: (i + lo) as u8,
            max_level: (i + hi) as u8,
            species: (base + i) as u32,
        })
    };
    let rock: [WaterEncounterEntry; 2] = core::array::from_fn(|i| WaterEncounterEntry {
        min_level: (i + 1) as u8,
        max_level: (i + 4) as u8,
        species: (400 + i) as u32,
    });
    BinaryEncounterFile {
        walking_rate: 20,
        grass_encounters: morning,
        swarm_encounters: [100, 101, 102, 103],
        day_encounters: day,
        night_encounters: night,
        radar_encounters: [0, 0, 0, 0],
        music_encounters: [200, 201, 202, 203],
        form_encounter_rates: [0; 5],
        unown_table_id: 0,
        dual_slot_ruby: [0; 2],
        dual_slot_sapphire: [0; 2],
        dual_slot_emerald: [0; 2],
        dual_slot_firered: [0; 2],
        dual_slot_leafgreen: [0; 2],
        surf_rate: 10,
        surf_encounters: water(1, 6, 300),
        old_rod_rate: 5,
        old_rod_encounters: water(2, 5, 500),
        good_rod_rate: 15,
        good_rod_encounters: water(3, 6, 600),
        super_rod_rate: 20,
        super_rod_encounters: water(4, 7, 700),
        rock_smash_rate: 12,
        rock_smash_encounters: rock,
        morning_encounters: morning,
    }
}

#[test]
fn test_encounter_binary_roundtrip_dppt() {
    let file = build_dppt_fixture();
    let mut buffer = Vec::new();
    file.to_binary(&mut buffer, GameFamily::Platinum).unwrap();
    let decoded = BinaryEncounterFile::from_binary(&buffer, GameFamily::Platinum).unwrap();
    assert_eq!(file, decoded);
}

#[test]
fn test_encounter_binary_roundtrip_hgss() {
    let file = build_hgss_fixture();
    let mut buffer = Vec::new();
    file.to_binary(&mut buffer, GameFamily::HGSS).unwrap();
    let decoded = BinaryEncounterFile::from_binary(&buffer, GameFamily::HGSS).unwrap();
    assert_eq!(file, decoded);
}

#[test]
fn test_encounter_binary_rejects_hgss_rate_overflow() {
    let mut file = build_hgss_fixture();
    file.walking_rate = 300;
    let mut buffer = Vec::new();
    let err = file.to_binary(&mut buffer, GameFamily::HGSS).unwrap_err();
    assert_eq!(err.kind(), ErrorKind::InvalidData);
    assert!(err.message().contains("walking_rate"));
}

#[test]
fn encounter_binary_sizes() {
    let mut dppt = Vec::new();
    build_dppt_fixture().to_binary(&mut dppt, GameFamily::Platinum).unwrap();
    assert_eq!(dppt.len(), 424);
    let mut hgss = Vec::new();
    build_hgss_fixture().to_binary(&mut hgss, GameFamily::HGSS).unwrap();
    assert!(hgss.len() >= 196);
    assert!(BinaryEncounterFile::from_binary(&dppt[..423], GameFamily::Platinum).is_err());
}

fn names(v: &[&str]) -> Vec<String> {
    v.iter().map(|s| s.to_string()).collect()
}

fn empty_json() -> JsonEncounterFile {
    JsonEncounterFile {
        land_rate: 30,
        land_encounters: vec![],
        swarms: vec![],
        day: vec![],
        night: vec![],
        radar: vec![],
        rate_form0: 0,
        rate_form1: 0,
        rate_form2: 0,
        rate_form3: 0,
        rate_form4: 0,
        unown_table: 0,
        ruby: vec![],
        sapphire: vec![],
        emerald: vec![],
        firered: vec![],
        leafgreen: vec![],
        surf_rate: 0,
        surf_encounters: vec![],
        old_rod_rate: 0,
        old_rod_encounters: vec![],
        good_rod_rate: 0,
        good_rod_encounters: vec![],
        super_rod_rate: 0,
        super_rod_encounters: vec![],
        music: None,
        rock_smash_rate: None,
        rock_smash_encounters: None,
        morning: None,
    }
}

#[test]
fn test_encounter_json_resolution() {
    let mut symbols = SymbolTable::new();
    symbols.insert_define("SPECIES_BULBASAUR".into(), 1);
    symbols.insert_define("SPECIES_IVYSAUR".into(), 2);
    let mut encounter = empty_json();
    encounter.land_encounters = vec![EncounterEntryJson { level: 5, species: "SPECIES_BULBASAUR".into() }];
    encounter.swarms = names(&["SPECIES_IVYSAUR", "2"]);
    let bin = encounter.to_binary(&symbols, GameFamily::Platinum).unwrap();
    assert_eq!(bin.grass_encounters[0].species, 1);
    assert_eq!(bin.swarm_encounters[0], 2);
    assert_eq!(bin.swarm_encounters[1], 2);
}

#[test]
fn test_encounter_json_unresolved_species_returns_error_platinum() {
    let symbols = SymbolTable::new();
    let mut encounter = empty_json();
    encounter.land_encounters = vec![EncounterEntryJson { level: 5, species: "SPECIES_DOES_NOT_EXIST".into() }];
    let err = encounter.to_binary(&symbols, GameFamily::Platinum).unwrap_err();
    assert_eq!(err.kind(), ErrorKind::InvalidData);
    assert!(err.message().contains("SPECIES_DOES_NOT_EXIST"));
}

#[test]
fn test_encounter_json_unresolved_species_returns_error_hgss_music() {
    let symbols = SymbolTable::new();
    let mut encounter = empty_json();
    encounter.music = Some(names(&["SPECIES_DOES_NOT_EXIST"]));
    encounter.rock_smash_rate = Some(0);
    encounter.rock_smash_encounters = Some(vec![]);
    encounter.morning = Some(vec![]);
    let err = encounter.to_binary(&symbols, GameFamily::HGSS).unwrap_err();
    assert_eq!(err.kind(), ErrorKind::InvalidData);
    assert!(err.message().contains("SPECIES_DOES_NOT_EXIST"));
}

#[test]
fn test_encounter_json_missing_hgss_rock_smash_rate_returns_error() {
    let symbols = SymbolTable::new();
    let mut encounter = empty_json();
    encounter.music = Some(vec![]);
    encounter.rock_smash_encounters = Some(vec![]);
    encounter.morning = Some(vec![]);
    let err = encounter.to_binary(&symbols, GameFamily::HGSS).unwrap_err();
    assert_eq!(err.kind(), ErrorKind::InvalidData);
    assert!(err.message().contains("rock_smash_rate"));
}

#[test]
fn encounter_json_music_falls_back_to_radar_and_extra_names_are_ignored() {
    let symbols = SymbolTable::new();
    let mut encounter = empty_json();
    encounter.radar = names(&["1", "2", "3", "4", "NOT_READ"]);
    encounter.rock_smash_rate = Some(7);
    encounter.surf_encounters = vec![WaterEncounterEntryJson { level_min: 3, level_max: 9, species: "55".into() }];
    let bin = encounter.to_binary(&symbols, GameFamily::HGSS).unwrap();
    assert_eq!(bin.music_encounters, [1, 2, 3, 4]);
    assert_eq!(bin.radar_encounters, [1, 2, 3, 4]);
    assert_eq!(bin.rock_smash_rate, 7);
    assert_eq!(bin.surf_encounters[0], WaterEncounterEntry { min_level: 3, max_level: 9, species: 55 });
    assert_eq!(bin.surf_encounters[1], WaterEncounterEntry::default());
    let plat = encounter.to_binary(&symbols, GameFamily::Platinum).unwrap();
    assert_eq!(plat.music_encounters, [0, 0, 0, 0]);
}

#[test]
fn encounter_json_round_trip_through_names() {
    let mut symbols = SymbolTable::new();
    symbols.insert_define("SPECIES_BULBASAUR".into(), 1);
    symbols.insert_define("SPECIES_IVYSAUR".into(), 2);
    for (bin, family) in [(build_dppt_fixture(), GameFamily::Platinum), (build_hgss_fixture(), GameFamily::HGSS)] {
        let json = JsonEncounterFile::from_binary(&bin, &symbols, family);
        assert_eq!(json.land_encounters[0].species, "SPECIES_BULBASAUR");
        let rebuilt = json.to_binary(&symbols, family).unwrap();
        assert_eq!(bin, rebuilt);
    }
}
