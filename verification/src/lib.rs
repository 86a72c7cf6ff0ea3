//! Converts emulator snapshots of a 64 KiB 6502 home computer into artifacts
//! that restore the captured machine state on real hardware: a self-extracting
//! program, or a banked cartridge image.

pub mod asm6502;
pub mod asm_text;
pub mod asm_wrapper;
pub mod bytes;
pub mod config;
pub mod convert_snapshot;
pub mod convert_snapshot_crt;
pub mod convert_snapshot_magic_desk_crt;
pub mod crt_builder;
pub mod file_system_manager;
pub mod find_ram;
pub mod load_save_hook;
pub mod make_crt_asm;
pub mod make_magic_desk_boot_asm;
pub mod make_magic_desk_crt_asm;
pub mod make_prg_asm;
pub mod make_romh_asm;
pub mod mos6502;
pub mod parse_vsf;
pub mod restore_law;
pub mod patch_mem;
pub mod text;
pub mod toolchain;
pub mod words;
