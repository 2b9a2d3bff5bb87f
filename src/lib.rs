pub mod events;
pub mod field;
pub mod ptr_table;
pub mod rom_map;
pub mod utils;
