//! Parsing of C headers: `#define`s, `enum`s, `#include`s and the constant
//! expressions they use.
pub mod defines;
pub mod enums;
pub mod includes;
pub mod expr;
pub mod symbol_table;
pub mod list_files;
pub mod text_banks;
pub mod armips_equ;
pub mod macros;
pub mod json;
pub mod include_walk;
