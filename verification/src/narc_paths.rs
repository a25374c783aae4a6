//! Where each game family keeps the archives the command line reads, inside
//! a project directory.
use vstd::prelude::*;
use crate::decomp_data::paths::DecompPaths;
use crate::game::GameFamily;
use crate::path::{join, path_join};

verus! {

/// The name a game family is shown with.
pub fn family_name(family: GameFamily) -> (s: &'static str)
    ensures
        s@ == match family {
            GameFamily::DP => "Diamond/Pearl"@,
            GameFamily::Platinum => "Platinum"@,
            GameFamily::HGSS => "HeartGold/SoulSilver"@,
        },
{
    match family {
        GameFamily::DP => "Diamond/Pearl",
        GameFamily::Platinum => "Platinum",
        GameFamily::HGSS => "HeartGold/SoulSilver",
    }
}

pub fn encounter_narc_path(project_path: &str, family: GameFamily) -> (r: String)
    ensures
        r@ == path_join(project_path@, match family {
            GameFamily::DP => "data/fielddata/encountdata/d_enc_data.narc"@,
            GameFamily::Platinum => "data/fielddata/encountdata/pl_enc_data.narc"@,
            GameFamily::HGSS => "data/a/0/3/7"@,
        }),
{
    let paths = DecompPaths::new(project_path);
    match family {
        GameFamily::DP => join(paths.root(), "data/fielddata/encountdata/d_enc_data.narc"),
        GameFamily::Platinum => paths.dspre_encounters_narc(),
        GameFamily::HGSS => join(paths.root(), "data/a/0/3/7"),
    }
}

pub fn personal_narc_path(project_path: &str, family: GameFamily) -> (r: String)
    ensures
        r@ == path_join(project_path@, match family {
            GameFamily::HGSS => "data/pbr/personal.narc"@,
            _ => "data/poketool/personal/pl_personal.narc"@,
        }),
{
    let paths = DecompPaths::new(project_path);
    match family {
        GameFamily::HGSS => join(paths.root(), "data/pbr/personal.narc"),
        _ => paths.dspre_personal_narc(),
    }
}

pub fn move_narc_path(project_path: &str, family: GameFamily) -> (r: String)
    ensures
        r@ == path_join(project_path@, match family {
            GameFamily::HGSS => "data/data/kowaza.narc"@,
            _ => "data/poketool/waza/pl_waza_tbl.narc"@,
        }),
{
    let paths = DecompPaths::new(project_path);
    match family {
        GameFamily::HGSS => join(paths.root(), "data/data/kowaza.narc"),
        _ => paths.dspre_moves_narc(),
    }
}

pub fn item_narc_path(project_path: &str, family: GameFamily) -> (r: String)
    ensures
        r@ == path_join(project_path@, match family {
            GameFamily::HGSS => "data/pbr/item_data.narc"@,
            _ => "data/itemtool/itemdata/pl_item_data.narc"@,
        }),
{
    let paths = DecompPaths::new(project_path);
    match family {
        GameFamily::HGSS => join(paths.root(), "data/pbr/item_data.narc"),
        _ => paths.dspre_items_narc(),
    }
}

pub fn trainer_data_narc_path(project_path: &str, family: GameFamily) -> (r: String)
    ensures
        r@ == path_join(project_path@, match family {
            GameFamily::HGSS => "data/a/0/5/5"@,
            _ => "data/poketool/trainer/trdata.narc"@,
        }),
{
    let paths = DecompPaths::new(project_path);
    match family {
        GameFamily::HGSS => join(paths.root(), "data/a/0/5/5"),
        _ => paths.dspre_trdata_narc(),
    }
}

pub fn trainer_party_narc_path(project_path: &str, family: GameFamily) -> (r: String)
    ensures
        r@ == path_join(project_path@, match family {
            GameFamily::HGSS => "data/a/0/5/6"@,
            _ => "data/poketool/trainer/trpoke.narc"@,
        }),
{
    let paths = DecompPaths::new(project_path);
    match family {
        GameFamily::HGSS => join(paths.root(), "data/a/0/5/6"),
        _ => paths.dspre_trpoke_narc(),
    }
}

pub fn evolution_narc_path(project_path: &str, family: GameFamily) -> (r: String)
    ensures
        r@ == path_join(project_path@, match family {
            GameFamily::HGSS => "data/a/0/3/4"@,
            _ => "data/poketool/personal/evo.narc"@,
        }),
{
    let paths = DecompPaths::new(project_path);
    match family {
        GameFamily::HGSS => join(paths.root(), "data/a/0/3/4"),
        _ => paths.dspre_evo_narc(),
    }
}

pub fn learnset_narc_path(project_path: &str, family: GameFamily) -> (r: String)
    ensures
        r@ == path_join(project_path@, match family {
            GameFamily::HGSS => "data/pbr/pms.narc"@,
            _ => "data/poketool/personal/wotbl.narc"@,
        }),
{
    let paths = DecompPaths::new(project_path);
    match family {
        GameFamily::HGSS => join(paths.root(), "data/pbr/pms.narc"),
        _ => paths.dspre_wotbl_narc(),
    }
}

/// The egg move archive; only HeartGold/SoulSilver keep one (the others
/// keep their egg moves in an overlay), so the path is empty elsewhere.
pub fn egg_move_narc_path(project_path: &str, family: GameFamily) -> (r: String)
    ensures
        r@ == match family {
            GameFamily::HGSS => path_join(project_path@, "data/data/kowaza.narc"@),
            _ => Seq::empty(),
        },
{
    let paths = DecompPaths::new(project_path);
    match family {
        GameFamily::HGSS => join(paths.root(), "data/data/kowaza.narc"),
        _ => String::new(),
    }
}

/// The overlay holding the egg moves of Diamond/Pearl/Platinum; empty for
/// HeartGold/SoulSilver.
pub fn egg_move_overlay_path(project_path: &str, family: GameFamily) -> (r: String)
    ensures
        r@ == match family {
            GameFamily::HGSS => Seq::empty(),
            _ => path_join(project_path@, "overlay/overlay_0005.bin"@),
        },
{
    let paths = DecompPaths::new(project_path);
    match family {
        GameFamily::HGSS => String::new(),
        _ => join(paths.root(), "overlay/overlay_0005.bin"),
    }
}

} // verus!
