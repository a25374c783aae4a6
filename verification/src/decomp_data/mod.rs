//! Game data in the decompilation projects' source formats (JSON, CSV),
//! converted to the binary records of the library.
pub mod items;
pub mod moves;
pub mod paths;
pub mod pokemon;
pub mod trainers;
