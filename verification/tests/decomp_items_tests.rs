use uxie_verified::decomp_data::items::{parse_csv_row, parse_item_csv, DecompItemData};
use uxie_verified::error::ErrorKind;
use uxie_verified::item_data::{FieldPocket, HP_RESTORE, POKE_BALLS};

const CSV_HEADER: &str = "item,price,holdEffect,holdEffectParam,pluckEffect,flingEffect,flingPower,naturalGiftPower,naturalGiftType,prevent_toss,selectable,fieldPocket,battlePocket,fieldUseFunc,battleUseFunc,partyUse,healSleep,healPoison,healBurn,healFreeze,healParalysis,healConfusion,healAttract,guardSpec,revive,reviveAll,levelUp,evolve,atkStages,defStages,spatkStages,spdefStages,speedStages,accStages,critStages,ppUp,ppMax,ppRestore,ppRestoreAll,hpRestore,giveHPEVs,giveAtkEVs,giveDefEVs,giveSpeedEVs,giveSpAtkEVs,giveSpDefEVs,giveFriendshipLow,giveFriendshipMed,giveFriendshipHigh,hpEVs,atkEVs,defEVs,speedEVs,spatkEVs,spdefEVs,hpRestored,ppRestored,friendshipLow,friendshipMed,friendshipHigh";
const CSV_VALID_ROW: &str = "ITEM_POTION,300,HOLD_EFFECT_NONE,0,0,0,0,0,0,false,true,POCKET_MEDICINE,BATTLE_POCKET_MASK_RECOVER_HP,ITEMUSE_NONE,0,0,false,false,false,false,false,false,false,false,false,false,false,false,0,0,0,0,0,0,0,false,false,false,false,true,false,false,false,false,false,false,true,true,true,0,0,0,0,0,0,20,0,3,2,1";

fn load(row: &str) -> Result<Vec<DecompItemData>, uxie_verified::error::UxieError> {
    parse_item_csv(&format!("{}\n{}\n", CSV_HEADER, row), "pl_item_data.csv")
}

fn with_column(index: usize, value: &str) -> String {
    let mut cols: Vec<&str> = CSV_VALID_ROW.split(',').collect();
    cols[index] = value;
    cols.join(",")
}

fn resolver(name: &str) -> Option<i64> {
    match name {
        "HOLD_EFFECT_NONE" => Some(0),
        "ITEMUSE_NONE" => Some(0),
        _ => None,
    }
}

#[test]
fn test_load_item_data_from_csv_loads_valid_entries() {
    let loaded = load(CSV_VALID_ROW).unwrap();
    assert_eq!(loaded.len(), 1);
    let item = &loaded[0];
    assert_eq!(item.name, "ITEM_POTION");
    assert_eq!(item.price, 300);
    assert_eq!(item.field_pocket, "POCKET_MEDICINE");
    assert!(item.hp_restore);
    assert_eq!(item.hp_restored, 20);
    assert_eq!(item.friendship_low, 3);
}

#[test]
fn test_load_item_data_from_csv_empty_file_returns_error() {
    let err = parse_item_csv("", "pl_item_data.csv").unwrap_err();
    assert_eq!(err.kind(), ErrorKind::InvalidData);
    assert!(err.message().contains("Empty CSV file"));
}

#[test]
fn test_to_item_data_resolves_required_constants() {
    let loaded = load(CSV_VALID_ROW).unwrap();
    let data = loaded[0].to_item_data(resolver).unwrap();
    assert_eq!(data.price, 300);
    assert_eq!(data.hold_effect, 0);
    assert_eq!(data.field_use_func, 0);
    assert_eq!(data.field_pocket, FieldPocket::Medicine);
    assert_eq!(data.battle_pocket.bits, HP_RESTORE);
    let (flags, values) = data.party_use_param.to_parts();
    assert!(flags.flag(42));
    assert!(flags.flag(49) && flags.flag(50) && flags.flag(51));
    assert!(!flags.flag(0));
    assert_eq!(values.hp_restored, 20);
}

#[test]
fn test_to_item_data_unresolved_required_constant_returns_error() {
    let loaded = load(CSV_VALID_ROW).unwrap();
    let err = loaded[0]
        .to_item_data(|name: &str| match name {
            "ITEMUSE_NONE" => Some(0),
            _ => None,
        })
        .unwrap_err();
    assert_eq!(err.kind(), ErrorKind::InvalidData);
    assert!(err.message().contains("HOLD_EFFECT_NONE"));
    assert!(err.message().contains("holdEffect"));
}

#[test]
fn test_to_item_data_invalid_field_pocket_returns_error() {
    let loaded = load(&with_column(11, "POCKET_UNKNOWN")).unwrap();
    let err = loaded[0].to_item_data(resolver).unwrap_err();
    assert_eq!(err.kind(), ErrorKind::InvalidData);
    assert!(err.message().contains("Invalid field pocket"));
}

#[test]
fn test_to_item_data_invalid_battle_pocket_flag_returns_error() {
    let loaded = load(&with_column(12, "BATTLE_POCKET_MASK_UNKNOWN")).unwrap();
    let err = loaded[0].to_item_data(resolver).unwrap_err();
    assert_eq!(err.kind(), ErrorKind::InvalidData);
    assert!(err.message().contains("Invalid battle pocket flag"));
}

#[test]
fn test_to_item_data_numeric_field_and_battle_pocket_are_supported() {
    let mut cols: Vec<String> = CSV_VALID_ROW.split(',').map(|s| s.to_string()).collect();
    cols[11] = "2".to_string();
    cols[12] = "5".to_string();
    let loaded = load(&cols.join(",")).unwrap();
    let data = loaded[0].to_item_data(resolver).unwrap();
    assert_eq!(data.field_pocket, FieldPocket::Balls);
    assert!(data.battle_pocket.bits & POKE_BALLS != 0);
    assert!(data.battle_pocket.bits & HP_RESTORE != 0);
}

#[test]
fn item_pockets_edge_cases() {
    let numeric = load(&with_column(11, "9")).unwrap();
    let err = numeric[0].to_item_data(resolver).unwrap_err();
    assert!(err.message().contains("Invalid numeric field pocket '9' (expected 0..=7)"));
    let big = load(&with_column(12, "32")).unwrap();
    let err = big[0].to_item_data(resolver).unwrap_err();
    assert!(err.message().contains("Invalid numeric battle pocket '32'"));
    let combined = load(&with_column(12, "BATTLE_POCKET_MASK_POKE_BALLS | BATTLE_POCKET_MASK_RECOVER_HP_STATUS")).unwrap();
    assert_eq!(combined[0].to_item_data(resolver).unwrap().battle_pocket.bits, 0x01 | 0x04 | 0x08);
    let blank = load(&with_column(12, "")).unwrap();
    assert_eq!(blank[0].to_item_data(resolver).unwrap().battle_pocket.bits, 0);
}

#[test]
fn test_load_item_data_from_csv_invalid_numeric_returns_error() {
    let err = load(&with_column(1, "not_a_number")).unwrap_err();
    assert_eq!(err.kind(), ErrorKind::InvalidData);
    assert!(err.message().contains("Failed to parse"));
    assert!(err.message().contains("price"));
    assert!(err.message().contains("row 2"));
    assert!(err.message().contains("invalid digit found in string"));
}

#[test]
fn test_load_item_data_from_csv_invalid_boolean_returns_error() {
    let err = load(&with_column(16, "maybe")).unwrap_err();
    assert_eq!(err.kind(), ErrorKind::InvalidData);
    assert!(err.message().contains("Failed to parse"));
    assert!(err.message().contains("healSleep"));
    assert!(err.message().contains("row 2"));
}

#[test]
fn test_load_item_data_from_csv_hgss_alias_columns() {
    let csv = "item,price,holdEffect,holdEffectParam,pluckEffect,flingEffect,flingPower,naturalGiftPower,naturalGiftType,prevent_toss,selectable,fieldPocket,battlePocket,fieldUseFunc,battleUseFunc,partyUse,slp_heal,psn_heal,brn_heal,frz_heal,prz_heal,cfs_heal,inf_heal,guard_spec,revive,revive_all,level_up,evolve,atk_stages,def_stages,spatk_stages,spdef_stages,speed_stages,accuracy_stages,critrate_stages,pp_up,pp_max,pp_restore,pp_restore_all,hp_restore,hp_ev_up,atk_ev_up,def_ev_up,speed_ev_up,spatk_ev_up,spdef_ev_up,friendship_mod_lo,friendship_mod_med,friendship_mod_hi,hp_ev_up_param,atk_ev_up_param,def_ev_up_param,speed_ev_up_param,spatk_ev_up_param,spdef_ev_up_param,hp_restore_param,pp_restore_param,friendship_mod_lo_param,friendship_mod_med_param,friendship_mod_hi_param\nITEM_TEST,100,HOLD_EFFECT_NONE,1,2,3,4,5,6,false,true,POCKET_MEDICINE,5,ITEMUSE_NONE,7,8,true,false,true,false,true,false,true,true,true,false,true,false,1,2,3,4,5,6,2,true,false,true,false,true,true,false,true,false,true,false,true,false,true,10,11,12,13,14,15,16,17,18,19,20\n";
    let loaded = parse_item_csv(csv, "item_data.csv").unwrap();
    let item = &loaded[0];
    assert_eq!(item.name, "ITEM_TEST");
    assert!(item.heal_sleep);
    assert!(item.heal_burn);
    assert!(item.heal_paralysis);
    assert!(item.heal_attract);
    assert!(item.guard_spec);
    assert!(item.revive);
    assert!(item.level_up);
    assert_eq!(item.acc_stages, 6);
    assert_eq!(item.crit_stages, 2);
    assert!(item.pp_up);
    assert!(item.pp_restore);
    assert!(item.hp_restore);
    assert!(item.give_hp_evs);
    assert!(item.give_def_evs);
    assert!(item.give_spatk_evs);
    assert!(item.give_friendship_low);
    assert!(item.give_friendship_high);
    assert_eq!(item.hp_evs, 10);
    assert_eq!(item.pp_restored, 17);
    assert_eq!(item.friendship_high, 20);
}

#[test]
fn csv_rows_blank_unnamed_and_short() {
    let header: Vec<String> = vec!["item".to_string(), "price".to_string(), "hpEVs".to_string()];
    assert!(parse_csv_row(&header, &vec![], 2).unwrap().is_none());
    assert!(parse_csv_row(&header, &vec!["".to_string(), "5".to_string()], 2).unwrap().is_none());
    let short = parse_csv_row(&header, &vec!["ITEM_A".to_string(), " 7 ".to_string()], 3).unwrap().unwrap();
    assert_eq!(short.price, 7);
    assert_eq!(short.hp_evs, 0);
    let neg = parse_csv_row(&header, &vec!["ITEM_B".to_string(), "".to_string(), "-5".to_string()], 4).unwrap().unwrap();
    assert_eq!(neg.hp_evs, -5);
    let err = parse_csv_row(&header, &vec!["ITEM_C".to_string(), "70000".to_string()], 5).unwrap_err();
    assert!(err.message().contains("Invalid value '70000' for column 'price' at row 5: number too large to fit in target type"));
    let csv = "item,price\n\n  \nITEM_X,1\nITEM_X,2\n";
    let rows = parse_item_csv(csv, "f.csv").unwrap();
    assert_eq!(rows.len(), 2);
    assert_eq!(rows[1].price, 2);
}
