use uxie_verified::egg_move_data::{EggMoveData, EggMoveEntry, EGG_MOVE_SPECIES_OFFSET, EGG_MOVE_TERMINATOR};
use uxie_verified::error::ErrorKind;
use uxie_verified::evolution_data::{EvolutionData, EvolutionEntry, EvolutionMethod, EVOLUTION_FILE_SIZE};
use uxie_verified::item_data::{
    BattlePocket, FieldPocket, ItemData, ItemPartyUseFlagsBits, ItemPartyUseParam, ItemPartyUseValues,
    HP_RESTORE, ITEM_DATA_SIZE, POKE_BALLS,
};
use uxie_verified::learnset_data::{LearnsetData, LearnsetEntry};
use uxie_verified::move_data::{MoveData, MoveFlags, MoveSplit, MAKES_CONTACT, MOVE_DATA_SIZE};

// ----- egg moves -----

#[test]
fn test_roundtrip_normal_format() {
    let data = EggMoveData {
        entries: vec![
            EggMoveEntry::new(1, vec![33, 45, 64]),
            EggMoveEntry::new(4, vec![52, 53]),
            EggMoveEntry::new(7, vec![55, 56, 57, 58]),
        ],
    };
    let bytes = data.to_bytes();
    let parsed = EggMoveData::from_binary(&bytes).unwrap();
    assert_eq!(data, parsed);
}

#[test]
fn test_empty_data() {
    let data = EggMoveData::default();
    let bytes = data.to_bytes();
    assert_eq!(bytes.len(), 2);
    assert_eq!(&bytes, &[0xFF, 0xFF]);
    let parsed = EggMoveData::from_binary(&bytes).unwrap();
    assert!(parsed.entries.is_empty());
}

#[test]
fn test_species_with_no_moves() {
    let data = EggMoveData { entries: vec![EggMoveEntry::new(25, vec![])] };
    let bytes = data.to_bytes();
    let parsed = EggMoveData::from_binary(&bytes).unwrap();
    assert_eq!(data, parsed);
    assert!(parsed.entries[0].move_ids.is_empty());
}

#[test]
fn test_simple_format_roundtrip() {
    let entry = EggMoveEntry::new(25, vec![85, 86, 87, 344]);
    let bytes = entry.to_bytes_simple();
    let parsed = EggMoveEntry::from_binary_simple(&bytes).unwrap();
    assert_eq!(entry.move_ids, parsed.move_ids);
}

#[test]
fn test_simple_format_empty() {
    let entry = EggMoveEntry::new(1, vec![]);
    let bytes = entry.to_bytes_simple();
    assert_eq!(bytes.len(), 2);
    assert_eq!(&bytes, &[0xFF, 0xFF]);
    let parsed = EggMoveEntry::from_binary_simple(&bytes).unwrap();
    assert!(parsed.move_ids.is_empty());
}

#[test]
fn test_get_by_species() {
    let data = EggMoveData {
        entries: vec![
            EggMoveEntry::new(1, vec![33]),
            EggMoveEntry::new(4, vec![52]),
            EggMoveEntry::new(7, vec![55]),
        ],
    };
    assert!(data.get_by_species(4).is_some());
    assert_eq!(data.get_by_species(4).unwrap().move_ids, vec![52]);
    assert!(data.get_by_species(999).is_none());
}

#[test]
fn test_can_learn() {
    let data = EggMoveData { entries: vec![EggMoveEntry::new(25, vec![85, 86, 87])] };
    assert!(data.can_learn(25, 85));
    assert!(data.can_learn(25, 87));
    assert!(!data.can_learn(25, 100));
    assert!(!data.can_learn(1, 85));
}

#[test]
fn test_byte_size() {
    let entry = EggMoveEntry::new(1, vec![33, 45, 64]);
    assert_eq!(entry.byte_size(), 8);
    let data = EggMoveData { entries: vec![EggMoveEntry::new(1, vec![33, 45]), EggMoveEntry::new(4, vec![52])] };
    assert_eq!(data.total_byte_size(), 12);
}

#[test]
fn test_binary_format_values() {
    let data = EggMoveData { entries: vec![EggMoveEntry::new(1, vec![33, 45])] };
    let bytes = data.to_bytes();
    let word = |i: usize| u16::from_le_bytes([bytes[2 * i], bytes[2 * i + 1]]);
    assert_eq!(word(0), 1 + EGG_MOVE_SPECIES_OFFSET);
    assert_eq!(word(1), 33);
    assert_eq!(word(2), 45);
    assert_eq!(word(3), EGG_MOVE_TERMINATOR);
}

#[test]
fn egg_moves_roundtrip_samples() {
    for entries in [
        vec![EggMoveEntry::new(1, vec![0, 20000])],
        vec![EggMoveEntry::new(45534, vec![1]), EggMoveEntry::new(2, vec![])],
    ] {
        let data = EggMoveData { entries };
        let parsed = EggMoveData::from_binary(&data.to_bytes()).unwrap();
        assert_eq!(data, parsed);
    }
}

#[test]
fn egg_moves_species_zero_marker_is_not_a_species() {
    // 20000 is no species marker (markers are above it), so the moves after it are dropped.
    let bytes = [0x20, 0x4E, 0x00, 0x00, 0xFF, 0xFF];
    assert!(EggMoveData::from_binary(&bytes).unwrap().entries.is_empty());
}

#[test]
fn egg_moves_truncated_stream_is_eof() {
    let err = EggMoveData::from_binary(&[0x21, 0x4E, 0x21]).unwrap_err();
    assert_eq!(err.kind(), ErrorKind::UnexpectedEof);
}

// ----- learnsets -----

#[test]
fn test_entry_packing() {
    let entry = LearnsetEntry::new(33, 15);
    let packed = entry.to_packed();
    let unpacked = LearnsetEntry::from_packed(packed);
    assert_eq!(entry, unpacked);
}

#[test]
fn learnset_test_roundtrip() {
    let learnset = LearnsetData {
        entries: vec![
            LearnsetEntry::new(33, 1),
            LearnsetEntry::new(45, 4),
            LearnsetEntry::new(36, 7),
            LearnsetEntry::new(98, 13),
        ],
    };
    let bytes = learnset.to_bytes();
    let parsed = LearnsetData::from_binary(&bytes).unwrap();
    assert_eq!(learnset, parsed);
}

#[test]
fn test_empty_learnset() {
    let learnset = LearnsetData::default();
    let bytes = learnset.to_bytes();
    assert_eq!(bytes.len(), 2);
    assert_eq!(&bytes, &[0xFF, 0xFF]);
    let parsed = LearnsetData::from_binary(&bytes).unwrap();
    assert!(parsed.entries.is_empty());
}

#[test]
fn test_moves_at_level() {
    let learnset = LearnsetData {
        entries: vec![
            LearnsetEntry::new(1, 1),
            LearnsetEntry::new(2, 5),
            LearnsetEntry::new(3, 10),
            LearnsetEntry::new(4, 15),
        ],
    };
    assert_eq!(learnset.moves_at_level(10).len(), 3);
    let learned_at_5 = learnset.moves_learned_at(5);
    assert_eq!(learned_at_5.len(), 1);
    assert_eq!(learned_at_5[0].move_id, 2);
}

#[test]
fn learnset_packing_exact_value() {
    assert_eq!(LearnsetEntry::new(33, 15).to_packed(), 33 + 15 * 512);
    assert_eq!(LearnsetEntry::from_packed(0xFFFE), LearnsetEntry { move_id: 0x1FE, level: 0x7F });
}

// ----- evolutions -----

#[test]
fn test_roundtrip() {
    let mut evo = EvolutionData::default();
    evo.entries[0] = EvolutionEntry { method: 4, param: 16, target_species: 2 };
    evo.entries[1] = EvolutionEntry { method: 1, param: 32, target_species: 3 };
    let bytes = evo.to_bytes();
    assert_eq!(bytes.len(), EVOLUTION_FILE_SIZE);
    let parsed = EvolutionData::from_binary(&bytes).unwrap();
    assert_eq!(evo, parsed);
}

#[test]
fn test_active_evolutions() {
    let mut evo = EvolutionData::default();
    evo.entries[0] = EvolutionEntry { method: 4, param: 16, target_species: 2 };
    evo.entries[2] = EvolutionEntry { method: 1, param: 32, target_species: 3 };
    assert_eq!(evo.active_evolutions().len(), 2);
}

#[test]
fn evolution_method_names() {
    assert_eq!(EvolutionMethod::from(4).to_display_string(), "LevelUp");
    assert_eq!(EvolutionMethod::from(0).to_display_string(), "None");
    assert_eq!(EvolutionMethod::from(999).to_display_string(), "Unknown(999)");
}

#[test]
fn evolution_short_data_is_invalid() {
    let err = EvolutionData::from_binary(&[0u8; 41]).unwrap_err();
    assert_eq!(err.kind(), ErrorKind::InvalidData);
}

// ----- moves -----

#[test]
fn binary_test_roundtrip() {
    let move_data = MoveData {
        battle_effect: 1,
        split: MoveSplit::Physical,
        power: 40,
        move_type: 0,
        accuracy: 100,
        pp: 35,
        side_effect_chance: 0,
        target: 0,
        priority: 0,
        flags: MoveFlags::from_bits_retain(MAKES_CONTACT),
        contest_appeal: 4,
        contest_condition: 0,
    };
    let bytes = move_data.to_bytes();
    assert_eq!(bytes.len(), MOVE_DATA_SIZE);
    let parsed = MoveData::from_binary(&bytes).unwrap();
    assert_eq!(move_data, parsed);
}

#[test]
fn test_negative_priority() {
    let move_data = MoveData {
        battle_effect: 100,
        split: MoveSplit::Status,
        power: 0,
        move_type: 14,
        accuracy: 0,
        pp: 10,
        side_effect_chance: 0,
        target: 0,
        priority: -6,
        flags: MoveFlags::empty(),
        contest_appeal: 0,
        contest_condition: 0,
    };
    let bytes = move_data.to_bytes();
    let parsed = MoveData::from_binary(&bytes).unwrap();
    assert_eq!(parsed.priority, -6);
}

#[test]
fn move_bytes_layout() {
    let move_data = MoveData {
        battle_effect: 0x0102,
        split: MoveSplit::Special,
        power: 3,
        move_type: 4,
        accuracy: 5,
        pp: 6,
        side_effect_chance: 7,
        target: 0x0809,
        priority: -1,
        flags: MoveFlags::from_bits_retain(0x3F),
        contest_appeal: 10,
        contest_condition: 11,
    };
    assert_eq!(move_data.to_bytes(), vec![0x02, 0x01, 1, 3, 4, 5, 6, 7, 0x09, 0x08, 0xFF, 0x3F, 10, 11]);
}

// ----- items -----

fn potion() -> ItemData {
    let party_use_flags = ItemPartyUseFlagsBits::new().with_flag(42, true);
    let party_use_values = ItemPartyUseValues { hp_restored: 20, ..Default::default() };
    ItemData {
        price: 200,
        hold_effect: 0,
        hold_effect_param: 0,
        pluck_effect: 0,
        fling_effect: 0,
        fling_power: 30,
        natural_gift_power: 0,
        natural_gift_type: 0,
        prevent_toss: false,
        is_selectable: true,
        field_pocket: FieldPocket::Items,
        battle_pocket: BattlePocket::empty(),
        field_use_func: 2,
        battle_use_func: 0,
        party_use: 1,
        party_use_param: ItemPartyUseParam::from_parts(party_use_flags, party_use_values),
    }
}

#[test]
fn item_test_roundtrip() {
    let item = potion();
    let bytes = item.to_bytes();
    assert_eq!(bytes.len(), ITEM_DATA_SIZE);
    let parsed = ItemData::from_binary(&bytes).unwrap();
    assert_eq!(item.price, parsed.price);
    assert_eq!(item.field_pocket, parsed.field_pocket);
    assert_eq!(item.is_selectable, parsed.is_selectable);
    let (_, item_values) = item.party_use_param.to_parts();
    let (_, parsed_values) = parsed.party_use_param.to_parts();
    assert_eq!(item_values.hp_restored, parsed_values.hp_restored);
    assert_eq!(item, parsed);
}

#[test]
fn test_party_use_param_roundtrip() {
    let mut flags = ItemPartyUseFlagsBits::new();
    for bit in [0u8, 1, 42, 43, 49, 50, 51] {
        flags = flags.with_flag(bit, true);
    }
    let values = ItemPartyUseValues {
        hp_restored: 50,
        hp_evs: 10,
        friendship_low: 5,
        friendship_med: 3,
        friendship_high: 1,
        ..Default::default()
    };
    let param = ItemPartyUseParam::from_parts(flags, values);
    let mut buf = Vec::new();
    param.to_binary(&mut buf);
    assert_eq!(buf.len(), 18);
    let parsed = ItemPartyUseParam::from_binary(&buf).unwrap();
    assert_eq!(param, parsed);
}

#[test]
fn test_bitfield_packing() {
    let item = ItemData {
        price: 0,
        hold_effect: 0,
        hold_effect_param: 0,
        pluck_effect: 0,
        fling_effect: 0,
        fling_power: 0,
        natural_gift_power: 0,
        natural_gift_type: 17,
        prevent_toss: true,
        is_selectable: false,
        field_pocket: FieldPocket::KeyItems,
        battle_pocket: BattlePocket { bits: POKE_BALLS | HP_RESTORE },
        field_use_func: 0,
        battle_use_func: 0,
        party_use: 0,
        party_use_param: ItemPartyUseParam::from_parts(ItemPartyUseFlagsBits::new(), ItemPartyUseValues::default()),
    };
    let bytes = item.to_bytes();
    let parsed = ItemData::from_binary(&bytes).unwrap();
    assert_eq!(parsed.natural_gift_type, 17);
    assert!(parsed.prevent_toss);
    assert!(!parsed.is_selectable);
    assert_eq!(parsed.field_pocket, FieldPocket::KeyItems);
    assert!(parsed.battle_pocket.contains(BattlePocket { bits: POKE_BALLS }));
    assert!(parsed.battle_pocket.contains(BattlePocket { bits: HP_RESTORE }));
}

#[test]
fn test_from_binary_invalid_field_pocket_bits_returns_error() {
    let mut bytes = vec![0u8; ITEM_DATA_SIZE];
    // Field pocket bits 7..11 of the packed word at offset 8 set to 15.
    bytes[8] = 0x80;
    bytes[9] = 0x07;
    let err = ItemData::from_binary(&bytes).unwrap_err();
    assert_eq!(err.kind(), ErrorKind::InvalidData);
    assert!(err.message().contains("Invalid field pocket bits"));
}

#[test]
fn item_party_flags_are_single_bits() {
    let flags = ItemPartyUseFlagsBits::new().with_flag(9, true);
    assert_eq!(flags.into_bytes(), [0, 2, 0, 0, 0, 0, 0]);
    assert!(flags.flag(9));
    assert!(!flags.with_flag(9, false).flag(9));
}
