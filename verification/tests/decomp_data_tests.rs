use uxie_verified::decomp_data::moves::{ContestData, DecompMoveData, MoveEffect};
use uxie_verified::decomp_data::pokemon::{parse_tm_index, BaseStats, DecompPokemonData, EvYields, HeldItems, Learnset};
use uxie_verified::error::ErrorKind;

fn tackle(flags: Vec<String>, contest: Option<ContestData>) -> DecompMoveData {
    DecompMoveData {
        name: "Tackle".to_string(),
        move_class: "CLASS_PHYSICAL".to_string(),
        move_type: "TYPE_NORMAL".to_string(),
        power: 40,
        accuracy: 100,
        pp: 35,
        effect: MoveEffect {
            effect_type: "MOVE_EFFECT_HIT".to_string(),
            chance: 0,
        },
        range: "RANGE_ADJACENT_OPPONENTS".to_string(),
        priority: 0,
        flags,
        contest,
    }
}

#[test]
fn test_to_move_data_resolves_required_constants() {
    let data = tackle(
        vec!["MOVE_FLAG_MAKES_CONTACT".to_string()],
        Some(ContestData {
            effect: "CONTEST_EFFECT_NONE".to_string(),
            contest_type: "CONTEST_TYPE_COOL".to_string(),
        }),
    );

    let move_data = data
        .to_move_data(|name: &str| match name {
            "MOVE_EFFECT_HIT" => Some(1),
            "TYPE_NORMAL" => Some(2),
            "RANGE_ADJACENT_OPPONENTS" => Some(3),
            "CONTEST_EFFECT_NONE" => Some(4),
            "CONTEST_TYPE_COOL" => Some(5),
            _ => None,
        })
        .unwrap();

    assert_eq!(move_data.battle_effect, 1);
    assert_eq!(move_data.move_type, 2);
    assert_eq!(move_data.target, 3);
    assert_eq!(move_data.contest_appeal, 4);
    assert_eq!(move_data.contest_condition, 5);
}

#[test]
fn test_to_move_data_unresolved_required_constant_returns_error() {
    let data = tackle(vec![], None);

    let err = data
        .to_move_data(|name: &str| match name {
            "MOVE_EFFECT_HIT" => Some(1),
            "RANGE_ADJACENT_OPPONENTS" => Some(3),
            _ => None,
        })
        .unwrap_err();

    assert_eq!(err.kind(), ErrorKind::InvalidData);
    assert!(err.message().contains("TYPE_NORMAL"));
    assert!(err.message().contains("type"));
}

#[test]
fn test_parse_tm_index() {
    assert_eq!(parse_tm_index("TM01"), Some(0));
    assert_eq!(parse_tm_index("TM25"), Some(24));
    assert_eq!(parse_tm_index("TM92"), Some(91));
    assert_eq!(parse_tm_index("HM01"), Some(92));
    assert_eq!(parse_tm_index("HM08"), Some(99));
}

fn sample_pokemon() -> DecompPokemonData {
    DecompPokemonData {
        base_stats: BaseStats { hp: 44, attack: 58, defense: 44, speed: 61, special_attack: 58, special_defense: 44 },
        types: ["TYPE_FIRE".to_string(), "TYPE_FIRE".to_string()],
        catch_rate: 45,
        base_exp_reward: 62,
        ev_yields: EvYields { hp: 0, attack: 0, defense: 0, speed: 1, special_attack: 0, special_defense: 0 },
        held_items: HeldItems { common: "ITEM_NONE".to_string(), rare: "ITEM_NONE".to_string() },
        gender_ratio: "MON_RATIO_MALE_87_5".to_string(),
        hatch_cycles: 20,
        base_friendship: 70,
        exp_rate: "GROWTH_MEDIUM_SLOW".to_string(),
        egg_groups: ["EGG_GROUP_FIELD".to_string(), "EGG_GROUP_HUMAN_LIKE".to_string()],
        abilities: ["ABILITY_BLAZE".to_string(), "ABILITY_NONE".to_string()],
        safari_flee_rate: 0,
        body_color: "BODY_COLOR_BROWN".to_string(),
        flip_sprite: false,
        icon_palette: 0,
        learnset: None,
        offspring: None,
    }
}

#[test]
fn test_to_personal_data_resolves_required_constants() {
    let data = sample_pokemon();
    let personal = data
        .to_personal_data(|name: &str| match name {
            "TYPE_FIRE" => Some(10),
            "ITEM_NONE" => Some(0),
            "MON_RATIO_MALE_87_5" => Some(31),
            "GROWTH_MEDIUM_SLOW" => Some(3),
            "EGG_GROUP_FIELD" => Some(5),
            "EGG_GROUP_HUMAN_LIKE" => Some(8),
            "ABILITY_BLAZE" => Some(66),
            "ABILITY_NONE" => Some(0),
            "BODY_COLOR_BROWN" => Some(4),
            _ => None,
        })
        .unwrap();
    assert_eq!(personal.type1, 10);
    assert_eq!(personal.type2, 10);
    assert_eq!(personal.gender_ratio, 31);
    assert_eq!(personal.ability1, 66);
    assert_eq!(personal.color_flip & 0x7F, 4);
}

#[test]
fn test_to_personal_data_unresolved_required_constant_returns_error() {
    let data = sample_pokemon();
    let err = data
        .to_personal_data(|name: &str| match name {
            "TYPE_FIRE" => Some(10),
            "ITEM_NONE" => Some(0),
            "MON_RATIO_MALE_87_5" => Some(31),
            "GROWTH_MEDIUM_SLOW" => Some(3),
            "EGG_GROUP_FIELD" => Some(5),
            "ABILITY_BLAZE" => Some(66),
            "ABILITY_NONE" => Some(0),
            "BODY_COLOR_BROWN" => Some(4),
            _ => None,
        })
        .unwrap_err();
    assert_eq!(err.kind(), uxie_verified::error::ErrorKind::InvalidData);
    assert!(err.message().contains("EGG_GROUP_HUMAN_LIKE"));
    assert!(err.message().contains("egg_groups[1]"));
}

#[test]
fn personal_data_packs_yields_colour_and_machines() {
    let mut data = sample_pokemon();
    data.ev_yields.hp = 2;
    data.ev_yields.special_defense = 3;
    data.flip_sprite = true;
    data.learnset = Some(Learnset {
        by_level: vec![],
        by_tm: vec!["TM01".to_string(), "TM10".to_string(), "HM01".to_string(), "HM40".to_string(), "XX".to_string()],
        by_tutor: vec![],
        egg_moves: vec![],
    });
    let p = data.to_personal_data(|_: &str| Some(4)).unwrap();
    assert_eq!(p.ev_yield, 2 | (1 << 6) | (3 << 10));
    assert_eq!(p.color_flip, 0x84);
    let mut expected = [0u8; 16];
    expected[0] = 1;
    expected[1] = 1 << 1;
    expected[11] = 1 << 4;
    assert_eq!(p.tm_compatibility, expected);
    assert_eq!(p.hp, 44);
    assert_eq!(p.egg_cycles, 20);
}
