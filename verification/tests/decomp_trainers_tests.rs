use uxie_verified::decomp_data::trainers::{DecompPartyMember, DecompTrainerData};
use uxie_verified::error::ErrorKind;

fn member(species: &str, level: u16) -> DecompPartyMember {
    DecompPartyMember {
        species: species.to_string(),
        form: 0,
        level,
        item: None,
        moves: None,
        difficulty: 0,
        gender_override: None,
        ability_override: None,
        capsule: 0,
    }
}

fn trainer(class: &str, party: Vec<DecompPartyMember>) -> DecompTrainerData {
    DecompTrainerData {
        name: "Rival".to_string(),
        trainer_class: class.to_string(),
        items: vec![],
        ai_flags: vec![],
        double_battle: false,
        party,
        messages: vec![],
    }
}

#[test]
fn test_to_trainer_data_supports_platinum_party_shape() {
    let mut glalie = member("SPECIES_GLALIE", 59);
    glalie.difficulty = 50;
    glalie.capsule = 7;
    let mut data = trainer("TRAINER_CLASS_ACE_TRAINER", vec![glalie]);
    data.name = "Ace Trainer".to_string();

    let trainer = data
        .to_trainer_data(|name| match name {
            "TRAINER_CLASS_ACE_TRAINER" => Some(12),
            "SPECIES_GLALIE" => Some(362),
            _ => None,
        })
        .unwrap();

    assert_eq!(trainer.party.len(), 1);
    let mon = &trainer.party[0];
    assert_eq!(mon.difficulty, 50);
    assert_eq!(mon.gender_ability_override, 0);
    assert_eq!(mon.level, 59);
    assert_eq!(mon.species, 362);
    assert_eq!(mon.ball_seal, Some(7));
}

#[test]
fn test_to_trainer_data_supports_hgss_party_shape() {
    let mut gastly = member("SPECIES_GASTLY", 14);
    gastly.difficulty = 30;
    gastly.gender_override = Some("TRPOKE_GENDER_OVERRIDE_MALE".to_string());
    gastly.ability_override = Some("TRPOKE_ABILITY_OVERRIDE_SECOND".to_string());
    gastly.capsule = 3;
    let data = trainer("TRAINER_CLASS_RIVAL", vec![gastly]);

    let trainer = data
        .to_trainer_data(|name| match name {
            "TRAINER_CLASS_RIVAL" => Some(7),
            "SPECIES_GASTLY" => Some(92),
            _ => None,
        })
        .unwrap();

    assert_eq!(trainer.party.len(), 1);
    let mon = &trainer.party[0];
    assert_eq!(mon.difficulty, 30);
    assert_eq!(mon.gender_ability_override, 0x21);
    assert_eq!(mon.level, 14);
    assert_eq!(mon.species, 92);
    assert_eq!(mon.ball_seal, Some(3));
}

#[test]
fn test_to_trainer_data_unresolved_required_constant_returns_error() {
    let mut gastly = member("SPECIES_GASTLY", 14);
    gastly.difficulty = 30;
    let data = trainer("TRAINER_CLASS_RIVAL", vec![gastly]);

    let err = data
        .to_trainer_data(|name| match name {
            "TRAINER_CLASS_RIVAL" => Some(7),
            _ => None,
        })
        .unwrap_err();

    assert_eq!(err.kind(), ErrorKind::InvalidData);
    assert!(err.message().contains("SPECIES_GASTLY"));
    assert!(err.message().contains("party.species"));
}

#[test]
fn test_to_trainer_data_unresolved_override_constant_returns_error() {
    let mut gastly = member("SPECIES_GASTLY", 14);
    gastly.difficulty = 30;
    gastly.gender_override = Some("TRPOKE_GENDER_OVERRIDE_UNKNOWN".to_string());
    let data = trainer("TRAINER_CLASS_RIVAL", vec![gastly]);

    let err = data
        .to_trainer_data(|name| match name {
            "TRAINER_CLASS_RIVAL" => Some(7),
            "SPECIES_GASTLY" => Some(92),
            _ => None,
        })
        .unwrap_err();

    assert_eq!(err.kind(), ErrorKind::InvalidData);
    assert!(err.message().contains("TRPOKE_GENDER_OVERRIDE_UNKNOWN"));
    assert!(err.message().contains("genderOverride"));
}

#[test]
fn trainer_properties_moves_items_and_flags() {
    let mut a = member("SPECIES_A", 10);
    a.item = Some("ITEM_X".to_string());
    a.moves = Some(vec!["MOVE_1".to_string(), "MOVE_2".to_string()]);
    a.gender_override = Some("GENDER_TABLE".to_string());
    a.ability_override = Some("TRPOKE_ABILITY_OVERRIDE_FIRST".to_string());
    let b = member("SPECIES_B", 12);
    let mut data = trainer("CLASS", vec![a, b]);
    data.items = ["I1", "I2", "I3", "I4", "I5"].iter().map(|s| s.to_string()).collect();
    data.ai_flags = vec!["AI_FLAG_BASIC".to_string(), "AI_FLAG_WEATHER".to_string(), "OTHER".to_string()];
    data.double_battle = true;

    let t = data
        .to_trainer_data(|name| match name {
            "CLASS" => Some(300),
            "I1" => Some(1),
            "I2" => Some(2),
            "I3" => Some(3),
            "I4" => Some(4),
            "SPECIES_A" => Some(65537),
            "SPECIES_B" => Some(5),
            "ITEM_X" => Some(17),
            "MOVE_1" => Some(33),
            "MOVE_2" => Some(45),
            "GENDER_TABLE" => Some(0x12),
            _ => None,
        })
        .unwrap();
    let p = &t.properties;
    assert!(p.flags.has_moves);
    assert!(p.flags.has_items);
    assert_eq!(p.trainer_class, 44);
    assert_eq!(p.unknown, 0);
    assert_eq!(p.party_count, 2);
    assert_eq!(p.items, [1, 2, 3, 4]);
    assert!(p.ai_flags.basic);
    assert!(p.ai_flags.weather);
    assert!(!p.ai_flags.expert);
    assert_eq!(p.double_battle, 1);
    let m = &t.party[0];
    assert_eq!(m.species, 1);
    assert_eq!(m.held_item, Some(17));
    assert_eq!(m.moves, Some([33, 45, 0, 0]));
    assert_eq!(m.gender_ability_override, 0x12);
    assert_eq!(m.ball_seal, None);
    let m = &t.party[1];
    assert_eq!(m.species, 5);
    assert_eq!(m.held_item, None);
    assert_eq!(m.moves, None);
    assert_eq!(m.gender_ability_override, 0);
}

#[test]
fn trainer_lookup_stops_at_the_first_failure() {
    let mut data = trainer("CLASS", vec![member("SPECIES_A", 1)]);
    data.items = vec!["ITEM_GONE".to_string()];
    let err = data
        .to_trainer_data(|name| match name {
            "CLASS" => Some(1),
            _ => None,
        })
        .unwrap_err();
    assert!(err.message().ends_with("Failed to resolve required constant 'ITEM_GONE' for trainer field 'items[0]'"));

    let mut m = member("SPECIES_A", 1);
    m.moves = Some(vec!["MOVE_OK".to_string(), "MOVE_GONE".to_string()]);
    let data = trainer("CLASS", vec![m]);
    let err = data
        .to_trainer_data(|name| match name {
            "CLASS" => Some(1),
            "SPECIES_A" => Some(2),
            "MOVE_OK" => Some(3),
            _ => None,
        })
        .unwrap_err();
    assert!(err.message().ends_with("Failed to resolve required constant 'MOVE_GONE' for trainer field 'party.moves[1]'"));

    let mut m = member("SPECIES_A", 1);
    m.ability_override = Some("NOPE".to_string());
    let err = trainer("CLASS", vec![m])
        .to_trainer_data(|name| match name {
            "CLASS" => Some(1),
            "SPECIES_A" => Some(2),
            _ => None,
        })
        .unwrap_err();
    assert!(err.message().ends_with("Failed to resolve override constant 'NOPE' for trainer field 'abilityOverride'"));
}
