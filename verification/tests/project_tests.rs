use uxie_verified::decomp_data::paths::DecompPaths;
use uxie_verified::ds_rom::{DsRomArm9Config, DspreProject};
use uxie_verified::error::ErrorKind;
use uxie_verified::game::{Game, GameFamily, GameLanguage};
use uxie_verified::path::join;
use uxie_verified::narc_paths::{
    egg_move_narc_path, egg_move_overlay_path, encounter_narc_path, evolution_narc_path,
    family_name, item_narc_path, learnset_narc_path, move_narc_path, personal_narc_path,
    trainer_data_narc_path, trainer_party_narc_path,
};

#[test]
fn test_parse_arm9_config() {
    let config = DsRomArm9Config {
        base_address: 33554432,
        entry_function: 33556480,
        build_info: 0,
        autoload_callback: 0,
        overlay_signatures: 0,
        encrypted: false,
        compressed: false,
        bss_start: 0,
        bss_end: 0,
        sdk_version: 67269937,
    };
    assert_eq!(config.base_address, 0x0200_0000);
    assert_eq!(config.sdk_version_string(), "4.2.30001");
}

#[test]
fn dspre_project_paths() {
    let p = DspreProject::open("/proj", true).unwrap();
    assert_eq!(p.unpacked_dir(), "/proj/unpacked");
    assert_eq!(p.script_file_path(7), "/proj/unpacked/scripts/0007");
    let err = DspreProject::open("/proj", false).unwrap_err();
    assert_eq!(err.kind(), ErrorKind::NotFound);
    assert!(err.message().contains("Not a DSPRE project"));
}

#[test]
fn path_join_follows_path_semantics() {
    assert_eq!(join("/a", "b"), "/a/b");
    assert_eq!(join("/a/", "b"), "/a/b");
    assert_eq!(join("/a", "/abs"), "/abs");
    assert_eq!(join("", "b"), "b");
}

#[test]
fn decomp_paths_layout() {
    let p = DecompPaths::new("/root/pokeplatinum");
    assert_eq!(p.root(), "/root/pokeplatinum");
    assert_eq!(p.source_items_csv(), "/root/pokeplatinum/res/items/pl_item_data.csv");
}

#[test]
fn game_families_and_languages() {
    assert_eq!(Game::Pearl.family(), GameFamily::DP);
    assert_eq!(Game::SoulSilver.family(), GameFamily::HGSS);
    assert_eq!(GameFamily::Platinum.default_game(), Game::Platinum);
    assert_eq!(GameFamily::HGSS.null_encounter_id(), 0xFF);
    assert_eq!(GameFamily::DP.null_encounter_id(), 0xFFFF);
    assert_eq!(GameLanguage::from_region_code('D'), GameLanguage::German);
    assert_eq!(GameLanguage::from_region_code('?'), GameLanguage::English);
    assert!(GameLanguage::Japanese.is_japanese());
    assert_eq!(GameLanguage::Korean.locale_key(), "ko_KR");
}

#[test]
fn narc_paths_follow_the_game_family() {
    assert_eq!(family_name(GameFamily::HGSS), "HeartGold/SoulSilver");
    assert_eq!(encounter_narc_path("proj", GameFamily::DP), "proj/data/fielddata/encountdata/d_enc_data.narc");
    assert_eq!(encounter_narc_path("proj", GameFamily::Platinum), "proj/data/fielddata/encountdata/pl_enc_data.narc");
    assert_eq!(encounter_narc_path("proj/", GameFamily::HGSS), "proj/data/a/0/3/7");
    assert_eq!(personal_narc_path("p", GameFamily::HGSS), "p/data/pbr/personal.narc");
    assert_eq!(personal_narc_path("p", GameFamily::DP), "p/data/poketool/personal/pl_personal.narc");
    assert_eq!(move_narc_path("p", GameFamily::HGSS), "p/data/data/kowaza.narc");
    assert_eq!(item_narc_path("p", GameFamily::Platinum), "p/data/itemtool/itemdata/pl_item_data.narc");
    assert_eq!(trainer_data_narc_path("p", GameFamily::HGSS), "p/data/a/0/5/5");
    assert_eq!(trainer_party_narc_path("p", GameFamily::DP), "p/data/poketool/trainer/trpoke.narc");
    assert_eq!(evolution_narc_path("p", GameFamily::HGSS), "p/data/a/0/3/4");
    assert_eq!(learnset_narc_path("p", GameFamily::Platinum), "p/data/poketool/personal/wotbl.narc");
    assert_eq!(egg_move_narc_path("p", GameFamily::Platinum), "");
    assert_eq!(egg_move_narc_path("p", GameFamily::HGSS), "p/data/data/kowaza.narc");
    assert_eq!(egg_move_overlay_path("p", GameFamily::DP), "p/overlay/overlay_0005.bin");
    assert_eq!(egg_move_overlay_path("p", GameFamily::HGSS), "");
}
