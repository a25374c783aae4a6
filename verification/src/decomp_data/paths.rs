//! Where the data files of a decompilation project are.
use vstd::prelude::*;
use crate::path::{join, path_join, lowercase, to_lowercase};
use crate::text::push_str;

verus! {

/// Path resolver for the data files of a decompilation project.
#[derive(Debug, Clone)]
pub struct DecompPaths {
    root: String,
}

impl DecompPaths {
    /// The project root.
    pub closed spec fn spec_root(&self) -> Seq<char> {
        self.root@
    }

    pub fn new(root: &str) -> (p: Self)
        ensures
            p.spec_root() == root@,
    {
        let mut r = String::new();
        push_str(&mut r, root);
        DecompPaths { root: r }
    }

    pub fn root(&self) -> (r: &str)
        ensures
            r@ == self.spec_root(),
    {
        self.root.as_str()
    }

    /// The file named `file` under `dir/`, the name lowercased.
    fn named_file(&self, dir: &str, name: &str, file: &str) -> (r: String)
        ensures
            r@ == path_join(self.spec_root(), dir@ + lowercase(name@) + file@),
    {
        let lower = to_lowercase(name);
        let mut rel = String::new();
        push_str(&mut rel, dir);
        push_str(&mut rel, lower.as_str());
        push_str(&mut rel, file);
        join(self.root.as_str(), rel.as_str())
    }

    pub fn build_personal_narc(&self) -> (r: String)
        ensures
            r@ == path_join(self.spec_root(), "build/res/pokemon/pl_personal.narc"@),
    {
        join(self.root.as_str(), "build/res/pokemon/pl_personal.narc")
    }

    pub fn build_evo_narc(&self) -> (r: String)
        ensures
            r@ == path_join(self.spec_root(), "build/res/pokemon/evo.narc"@),
    {
        join(self.root.as_str(), "build/res/pokemon/evo.narc")
    }

    pub fn build_wotbl_narc(&self) -> (r: String)
        ensures
            r@ == path_join(self.spec_root(), "build/res/pokemon/wotbl.narc"@),
    {
        join(self.root.as_str(), "build/res/pokemon/wotbl.narc")
    }

    pub fn build_moves_narc(&self) -> (r: String)
        ensures
            r@ == path_join(self.spec_root(), "build/res/battle/moves/pl_waza_tbl.narc"@),
    {
        join(self.root.as_str(), "build/res/battle/moves/pl_waza_tbl.narc")
    }

    pub fn build_items_narc(&self) -> (r: String)
        ensures
            r@ == path_join(self.spec_root(), "build/res/items/pl_item_data.narc"@),
    {
        join(self.root.as_str(), "build/res/items/pl_item_data.narc")
    }

    pub fn build_trdata_narc(&self) -> (r: String)
        ensures
            r@ == path_join(self.spec_root(), "build/res/trainers/trdata.narc"@),
    {
        join(self.root.as_str(), "build/res/trainers/trdata.narc")
    }

    pub fn build_trpoke_narc(&self) -> (r: String)
        ensures
            r@ == path_join(self.spec_root(), "build/res/trainers/trpoke.narc"@),
    {
        join(self.root.as_str(), "build/res/trainers/trpoke.narc")
    }

    pub fn build_zone_event_narc(&self) -> (r: String)
        ensures
            r@ == path_join(self.spec_root(), "build/res/field/events/zone_event.narc"@),
    {
        join(self.root.as_str(), "build/res/field/events/zone_event.narc")
    }

    pub fn build_encounter_narc(&self) -> (r: String)
        ensures
            r@ == path_join(self.spec_root(), "build/res/field/encounters/pl_enc_data.narc"@),
    {
        join(self.root.as_str(), "build/res/field/encounters/pl_enc_data.narc")
    }

    pub fn source_pokemon_dir(&self) -> (r: String)
        ensures
            r@ == path_join(self.spec_root(), "res/pokemon"@),
    {
        join(self.root.as_str(), "res/pokemon")
    }

    pub fn source_moves_dir(&self) -> (r: String)
        ensures
            r@ == path_join(self.spec_root(), "res/battle/moves"@),
    {
        join(self.root.as_str(), "res/battle/moves")
    }

    pub fn source_items_csv(&self) -> (r: String)
        ensures
            r@ == path_join(self.spec_root(), "res/items/pl_item_data.csv"@),
    {
        join(self.root.as_str(), "res/items/pl_item_data.csv")
    }

    pub fn source_trainers_dir(&self) -> (r: String)
        ensures
            r@ == path_join(self.spec_root(), "res/trainers/data"@),
    {
        join(self.root.as_str(), "res/trainers/data")
    }

    pub fn source_events_dir(&self) -> (r: String)
        ensures
            r@ == path_join(self.spec_root(), "res/field/events"@),
    {
        join(self.root.as_str(), "res/field/events")
    }

    pub fn source_encounters_dir(&self) -> (r: String)
        ensures
            r@ == path_join(self.spec_root(), "res/field/encounters"@),
    {
        join(self.root.as_str(), "res/field/encounters")
    }

    pub fn dspre_personal_narc(&self) -> (r: String)
        ensures
            r@ == path_join(self.spec_root(), "data/poketool/personal/pl_personal.narc"@),
    {
        join(self.root.as_str(), "data/poketool/personal/pl_personal.narc")
    }

    pub fn dspre_evo_narc(&self) -> (r: String)
        ensures
            r@ == path_join(self.spec_root(), "data/poketool/personal/evo.narc"@),
    {
        join(self.root.as_str(), "data/poketool/personal/evo.narc")
    }

    pub fn dspre_wotbl_narc(&self) -> (r: String)
        ensures
            r@ == path_join(self.spec_root(), "data/poketool/personal/wotbl.narc"@),
    {
        join(self.root.as_str(), "data/poketool/personal/wotbl.narc")
    }

    pub fn dspre_moves_narc(&self) -> (r: String)
        ensures
            r@ == path_join(self.spec_root(), "data/poketool/waza/pl_waza_tbl.narc"@),
    {
        join(self.root.as_str(), "data/poketool/waza/pl_waza_tbl.narc")
    }

    pub fn dspre_items_narc(&self) -> (r: String)
        ensures
            r@ == path_join(self.spec_root(), "data/itemtool/itemdata/pl_item_data.narc"@),
    {
        join(self.root.as_str(), "data/itemtool/itemdata/pl_item_data.narc")
    }

    pub fn dspre_trdata_narc(&self) -> (r: String)
        ensures
            r@ == path_join(self.spec_root(), "data/poketool/trainer/trdata.narc"@),
    {
        join(self.root.as_str(), "data/poketool/trainer/trdata.narc")
    }

    pub fn dspre_trpoke_narc(&self) -> (r: String)
        ensures
            r@ == path_join(self.spec_root(), "data/poketool/trainer/trpoke.narc"@),
    {
        join(self.root.as_str(), "data/poketool/trainer/trpoke.narc")
    }

    pub fn dspre_encounters_narc(&self) -> (r: String)
        ensures
            r@ == path_join(self.spec_root(), "data/fielddata/encountdata/pl_enc_data.narc"@),
    {
        join(self.root.as_str(), "data/fielddata/encountdata/pl_enc_data.narc")
    }

    pub fn source_events_order(&self) -> (r: String)
        ensures
            r@ == path_join(self.spec_root(), "res/field/events/zone_event.order"@),
    {
        join(self.root.as_str(), "res/field/events/zone_event.order")
    }

    pub fn source_encounters_order(&self) -> (r: String)
        ensures
            r@ == path_join(self.spec_root(), "res/field/encounters/encounters.order"@),
    {
        join(self.root.as_str(), "res/field/encounters/encounters.order")
    }

    pub fn source_pokemon_data(&self, species_name: &str) -> (r: String)
        ensures
            r@ == path_join(self.spec_root(), "res/pokemon/"@ + lowercase(species_name@) + "/data.json"@),
    {
        self.named_file("res/pokemon/", species_name, "/data.json")
    }

    pub fn source_move_data(&self, move_name: &str) -> (r: String)
        ensures
            r@ == path_join(self.spec_root(), "res/battle/moves/"@ + lowercase(move_name@) + "/data.json"@),
    {
        self.named_file("res/battle/moves/", move_name, "/data.json")
    }

    pub fn source_trainer_data(&self, trainer_name: &str) -> (r: String)
        ensures
            r@ == path_join(self.spec_root(), "res/trainers/data/"@ + lowercase(trainer_name@) + ".json"@),
    {
        self.named_file("res/trainers/data/", trainer_name, ".json")
    }

    pub fn source_event_file(&self, map_name: &str) -> (r: String)
        ensures
            r@ == path_join(self.spec_root(), "res/field/events/events_"@ + lowercase(map_name@) + ".json"@),
    {
        self.named_file("res/field/events/events_", map_name, ".json")
    }

    pub fn source_encounter_file(&self, map_name: &str) -> (r: String)
        ensures
            r@ == path_join(self.spec_root(), "res/field/encounters/encounters_"@ + lowercase(map_name@) + ".json"@),
    {
        self.named_file("res/field/encounters/encounters_", map_name, ".json")
    }
}

} // verus!
