//! ZX Spectrum tape decks, TZX expansion, ROM catalog and debugger logic.

pub mod debugger;
pub mod ear;
pub mod inspect;
pub mod joystick;
pub mod load_keys;
pub mod machine;
pub mod msg;
pub mod rom_catalog;
pub mod rom_read;
pub mod rom_resolve;
pub mod rom_slots;
pub mod snapshot;
pub mod tap;
pub mod tape_bay;
pub mod tape_trap;
pub mod text;
pub mod tzx_frame;
pub mod tzx_errors;
pub mod tzx_gdb;
pub mod tzx_laws;
pub mod tzx_levels;
pub mod tzx_spec;
pub mod tzx;
pub mod tzx_expand;
pub mod z80test;
pub mod zlib;
