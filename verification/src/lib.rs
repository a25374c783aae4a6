use vstd::prelude::*;

pub mod bytes;
pub mod c_parser;
pub mod decomp_data;
pub mod ds_rom;
pub mod egg_move_data;
pub mod encounter_file;
pub mod error;
pub mod event_file;
pub mod evolution_data;
pub mod game;
pub mod item_data;
pub mod learnset_data;
pub mod map_header;
pub mod move_data;
pub mod narc_paths;
pub mod path;
pub mod results;
pub mod text;
pub mod trainer_data;

verus! {

} // verus!
