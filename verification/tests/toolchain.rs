use vice_snapshot_to_prg_converter::asm_wrapper::{
    assemble_to_bytes, AsmError, Assembler6502Wrapper,
};
use vice_snapshot_to_prg_converter::load_save_hook::LoadSaveHook;
use vice_snapshot_to_prg_converter::make_crt_asm::MakeCRTAsm;
use vice_snapshot_to_prg_converter::make_magic_desk_boot_asm::MakeMagicDeskBootAsm;
use vice_snapshot_to_prg_converter::make_magic_desk_crt_asm::MakeMagicDeskCRTAsm;
use vice_snapshot_to_prg_converter::make_prg_asm::MakePRGAsm;
use vice_snapshot_to_prg_converter::make_romh_asm::MakeROMHAsm;
use vice_snapshot_to_prg_converter::config::Config;
use vice_snapshot_to_prg_converter::parse_vsf::ParseVSF;
use vice_snapshot_to_prg_converter::toolchain::{ToolRequest, Toolchain};

fn assembled(tools: Toolchain) -> String {
    match tools.into_pending() {
        Some(ToolRequest::Assemble(source)) => source,
        other => panic!("{:?}", other),
    }
}

#[test]
fn results_are_used_up_in_order() {
    let mut tools = Toolchain::new(vec![Ok(vec![1, 2]), Err("bad".to_string()), Ok(vec![3])]);
    assert!(!tools.is_waiting());
    assert_eq!(tools.run(ToolRequest::Compress(vec![9])), Ok(vec![1, 2]));
    assert_eq!(tools.run(ToolRequest::Assemble("a".to_string())), Err("bad".to_string()));
    assert_eq!(tools.run(ToolRequest::Compress(vec![])), Ok(vec![3]));
    assert!(!tools.is_waiting());
    assert_eq!(
        tools.run(ToolRequest::Assemble("first".to_string())),
        Err("Waiting for an outside tool".to_string())
    );
    assert!(tools.is_waiting());
    assert_eq!(
        tools.run(ToolRequest::Assemble("second".to_string())),
        Err("Waiting for an outside tool".to_string())
    );
    assert_eq!(assembled(tools), "first");
}

#[test]
fn nothing_waits_while_results_are_left() {
    let mut tools = Toolchain::new(vec![Ok(vec![1])]);
    assert_eq!(tools.run(ToolRequest::Compress(vec![5, 6])), Ok(vec![1]));
    assert!(tools.into_pending().is_none());
    let mut tools = Toolchain::new(vec![]);
    assert!(tools.run(ToolRequest::Compress(vec![5, 6])).is_err());
    match tools.into_pending() {
        Some(ToolRequest::Compress(data)) => assert_eq!(data, vec![5, 6]),
        other => panic!("{:?}", other),
    }
}

#[test]
fn assembler_results() {
    let mut assembler = Assembler6502Wrapper::new();
    let mut tools = Toolchain::new(vec![Ok(vec![0xEA]), Ok(vec![0x60, 0x00]), Err("line 3".to_string())]);
    assert_eq!(assembler.assemble_bytes(&mut tools, " NOP").unwrap(), vec![0xEA]);
    assert_eq!(assembler.assemble_prg(&mut tools, " RTS").unwrap(), vec![0x01, 0x08, 0x60, 0x00]);
    match assembler.assemble_prg(&mut tools, " XYZ") {
        Err(AsmError::Asm(message)) => assert_eq!(message, "line 3"),
        other => panic!("{:?}", other),
    }
    assert_eq!(assemble_to_bytes(&mut tools, " NOP"), Err("Waiting for an outside tool".to_string()));
    assert_eq!(assembled(tools), " NOP");
}

#[test]
fn compression_failures_are_marked() {
    let parser = ParseVSF::new(Vec::new());
    let mut tools = Toolchain::new(vec![Ok(vec![7]), Err("out of memory".to_string())]);
    assert_eq!(parser.compress_lzsa(&mut tools, &[1, 2, 3]), Ok(vec![7]));
    assert_eq!(
        parser.compress_lzsa(&mut tools, &[1, 2, 3]),
        Err("LZSA compression failed: out of memory".to_string())
    );
    assert_eq!(
        parser.compress_lzsa(&mut tools, &[4, 5]),
        Err("LZSA compression failed: Waiting for an outside tool".to_string())
    );
    match tools.into_pending() {
        Some(ToolRequest::Compress(data)) => assert_eq!(data, vec![4, 5]),
        other => panic!("{:?}", other),
    }
}

fn crt_generator(relocated: usize, ram: usize, restore: usize, load_save: usize) -> MakeCRTAsm {
    MakeCRTAsm::new(
        vec![0x11, 0x12],
        vec![0x21],
        vec![0x31],
        vec![0x41; 20],
        vec![0x51; 20],
        vec![],
        0x3000,
        [1, 2, 3, 4, 5, 6, 7, 8],
        relocated,
        ram,
        restore,
        load_save,
    )
    .unwrap()
}

#[test]
fn restore_routine_of_the_16k_cartridge() {
    let g = crt_generator(0x100, 0x2000, 0x300, 0);
    let source = g.generate_main_code_asm6502();
    assert!(source.starts_with("; C64 EasyFlash CRT Snapshot Restore Code\n"));
    assert!(source.contains("*=$0340\n"));
    assert!(source.contains("RELOCATED_SIZE = 256\n"));
    assert!(source.contains("RAM_DATA_SIZE = 8448\n"));
    assert!(source.contains("END_DATA_START = $DF00\n"));
    assert!(source.contains("RAM_LZSA_START = $E000\n"));
    assert!(source.contains("color_data:\n    .byte $11,$12\nvic_data:\n    .byte $21\n"));
    assert!(source.contains("zp_data:\n    .byte $00\nf8_ff_data:\n    .byte $01,$02,$03,$04,$05,$06,$07,$08\n"));
    assert!(source.contains("; Use $04 (full disable)\n    LDA #$04\n    STA $DE02"));
    assert!(source.ends_with("got_byte:\n    RTS\n"));

    let copy = g.generate_data_copy_code(0xDF00, 0x2100);
    assert!(copy.contains("    LDA #$00\n    STA $F7\n    STA EASYFLASH_ROML"));
    assert!(copy.contains("    LDA #$83\n    STA $FC\n    LDA #$00\n    STA $FB"));
    assert!(copy.contains("    LDA #$DF\n    STA $FE\n    LDA #$00\n    STA $FD"));
    assert!(copy.contains("    LDA #$21\n    STA $F8\n    LDA #$00\n    STA $F9"));
    assert!(source.contains(&copy));

    let with_handler = crt_generator(0x100, 0x2000, 0x1F00, 0x200);
    let copy = with_handler.generate_data_copy_code(0, 0);
    assert!(copy.contains("; Use $03 (allow re-enable later for LOAD/SAVE)\n    LDA #$03\n    STA $DE02"));
    assert!(copy.contains("    LDA #$01\n    STA $F7\n"));
    assert!(copy.contains("    LDA #$A1\n    STA $FC\n    LDA #$00\n    STA $FB"));
    assert_eq!(g.format_bytes(&[0xFF, 0x00]), "    .byte $FF,$00");
}

#[test]
fn generators_ask_for_their_assemblies() {
    let g = crt_generator(0x100, 0x2000, 0x300, 0);
    let mut tools = Toolchain::new(vec![Ok(vec![1, 2, 3])]);
    assert_eq!(g.generate_restore_code_binary(&mut tools), Ok(vec![1, 2, 3]));
    assert!(g.generate_relocated_decompressor(&mut tools).is_err());
    let source = assembled(tools);
    assert!(source.starts_with("*=$0100\n"));
    assert!(source.contains("finished:\n    LDA #$30\n    STA $01\n    JMP $3000\n"));

    let mut tools = Toolchain::new(vec![]);
    assert!(g.generate_restore_code_binary(&mut tools).is_err());
    assert_eq!(assembled(tools), g.generate_main_code_asm6502());
}

#[test]
fn register_blocks_must_be_20_bytes() {
    let bad = MakeCRTAsm::new(
        vec![],
        vec![],
        vec![],
        vec![0; 19],
        vec![0; 20],
        vec![],
        0,
        [0; 8],
        0,
        0,
        0,
        0,
    );
    assert_eq!(bad.err(), Some("CIA1 file must be 20 bytes, got 19".to_string()));
    let bad = MakeMagicDeskCRTAsm::new(
        vec![],
        vec![],
        vec![],
        vec![0; 20],
        vec![0; 21],
        vec![],
        0,
        [0; 8],
        0,
        0,
        0,
        0,
    );
    assert_eq!(bad.err(), Some("CIA2 file must be 20 bytes, got 21".to_string()));
    let bad = MakePRGAsm::new(
        vec![],
        vec![],
        vec![],
        vec![],
        vec![0; 20],
        vec![],
        vec![],
        0,
        [0; 8],
        &Config::new("w"),
    );
    assert_eq!(bad.err(), Some("CIA1 file must be 20 bytes, got 0".to_string()));
}

#[test]
fn restore_routine_of_the_8k_cartridge() {
    let g = MakeMagicDeskCRTAsm::new(
        vec![0x11],
        vec![0x21],
        vec![0x31],
        vec![0x41; 20],
        vec![0x51; 20],
        vec![0x61],
        0xC123,
        [0; 8],
        0x90,
        0x1000,
        0x400,
        0x60,
    )
    .unwrap();
    let source = g.generate_main_code_asm6502();
    assert!(source.starts_with("; C64 Magic Desk CRT Snapshot Restore Code\n"));
    assert!(source.contains("MAGIC_DESK_BANK = $DE00\n"));
    assert!(source.contains("RELOCATED_SIZE = 144\n"));
    assert!(source.contains("RAM_DATA_SIZE = 4240\n"));
    assert!(source.contains("END_DATA_START = $EF70\n"));
    assert!(source.contains("RAM_LZSA_START = $F000\n"));
    assert!(source.contains("    LDA #$80\n    STA MAGIC_DESK_BANK\n"));
    let copy = g.generate_data_copy_code(0xEF70, 0x1090);
    assert!(copy.contains("    LDA #$84\n    STA $FC\n    LDA #$60\n    STA $FB"));
    assert!(copy.contains("    LDA #$00\n    STA $F7\n"));
    let mut tools = Toolchain::new(vec![]);
    assert!(g.generate_relocated_decompressor(&mut tools).is_err());
    assert!(assembled(tools).contains("    JMP $C123\n"));
}

#[test]
fn boot_code_of_the_8k_cartridge() {
    let g = MakeMagicDeskBootAsm::new(0x0401);
    let trampoline = g.generate_trampoline_asm();
    assert!(trampoline.contains("    ; Pages to copy\n    LDA #$05\n    STA $F8\n"));
    assert!(trampoline.ends_with("    JMP $0340"));
    let boot = g.generate_boot_asm();
    assert!(boot.starts_with("; Magic Desk Boot Code @ $8000\n"));
    assert!(boot.contains("*=$8000\n"));
    assert!(boot.contains("    .word cold_start\n"));
    assert!(boot.contains("    .byte $C3, $C2, $CD, $38, $30\n"));
    assert!(boot.contains(&trampoline));
    assert!(boot.ends_with("TRAMPOLINE_SIZE = trampoline_end - trampoline_code\n"));
    assert!(MakeMagicDeskBootAsm::new(0).generate_trampoline_asm().contains("LDA #$00\n    STA $F8"));
    assert!(MakeMagicDeskBootAsm::new(256).generate_trampoline_asm().contains("LDA #$01\n    STA $F8"));
    assert!(MakeMagicDeskBootAsm::new(65280).generate_trampoline_asm().contains("LDA #$FF\n    STA $F8"));
    let mut tools = Toolchain::new(vec![Ok(vec![9, 9])]);
    assert_eq!(g.generate_boot_code(&mut tools), Ok(vec![9, 9]));
}

#[test]
fn high_window_of_bank_0() {
    let g = MakeROMHAsm::new(0x0234, Some(vec![0xA1; 3]), Some(vec![0xB2; 2048]), Some(vec![0xC3; 2048]));
    let trampoline = g.generate_boot_trampoline_asm();
    assert!(trampoline.contains("    ; Copy restore code from ROML $8000 to RAM $0340\n    LDA #$80\n    STA $FC\n    LDA #$00\n    STA $FB"));
    assert!(trampoline.contains("    LDA #$03\n    STA $F8\n"));
    let source = g.generate_romh_asm();
    assert!(source.starts_with("; C64 EasyFlash ROMH @ $E000\n"));
    assert!(source.contains(&trampoline));
    assert!(source.contains("*=$FFFA\n"));

    let mut startup = vec![0x40, 0x78, 0xD8];
    startup.resize(8192, 0xEE);
    let window = g.build_romh(&startup);
    assert_eq!(&window[0..3], &[0x40, 0x78, 0xD8]);
    assert_eq!(window[0x05FF], 0xEE);
    assert_eq!(&window[0x0600..0x0603], &[0xA1; 3]);
    assert_eq!(window[0x0603], 0xEE);
    assert_eq!(window[0x0FFF], 0xEE);
    assert!(window[0x1000..0x1800].iter().all(|&b| b == 0xB2));
    assert!(window[0x1800..0x1FFA].iter().all(|&b| b == 0xC3));
    assert_eq!(&window[0x1FFA..], &[0x00, 0xE0, 0x01, 0xE0, 0x00, 0xE0]);

    let bare = MakeROMHAsm::new(0, None, None, None);
    let window = bare.build_romh(&[0x40]);
    assert_eq!(window[0], 0x40);
    assert!(window[1..0x1FFA].iter().all(|&b| b == 0));
    assert_eq!(&window[0x1FFA..], &[0x00, 0xE0, 0x01, 0xE0, 0x00, 0xE0]);
    let long = bare.build_romh(&vec![0x55; 9000]);
    assert_eq!(long[0x1FF9], 0x55);
    assert_eq!(&long[0x1FFA..], &[0x00, 0xE0, 0x01, 0xE0, 0x00, 0xE0]);

    let mut tools = Toolchain::new(vec![Err("no".to_string())]);
    assert_eq!(bare.generate_romh(&mut tools).err(), Some("no".to_string()));
    let mut tools = Toolchain::new(vec![Ok(vec![0x40])]);
    assert_eq!(bare.generate_romh(&mut tools).unwrap()[0], 0x40);
}

#[test]
fn self_extracting_program() {
    let g = MakePRGAsm::new(
        vec![1],
        vec![2],
        vec![3],
        vec![4; 20],
        vec![5; 20],
        vec![6],
        vec![7, 7],
        0x4000,
        [0; 8],
        &Config::new("C:\\work\\dir"),
    )
    .unwrap();
    let source = g.generate_main_code_asm6502();
    assert!(source.starts_with("; C64 LZSA1 Snapshot Loader - Conservative Optimization\n*=$0801\n"));
    assert!(source.contains(".byte $0B,$08,$0A,$00,$9E,$32,$30,$36,$31,$00,$00,$00\n"));
    assert!(source.contains("color_data:\n    .incbin \"C:/work/dir/color.lzsa\"\n"));
    assert!(source.contains("    .incbin \"C:/work/dir/ram.lzsa\"\n"));
    assert!(g.generate_relocated_decompressor().contains("    JMP $4000\n"));

    let files = g.write_data_files(&[0xEA]);
    let names: Vec<&str> = files.iter().map(|f| f.name.as_str()).collect();
    assert_eq!(
        names,
        vec![
            "C:\\work\\dir/color.lzsa",
            "C:\\work\\dir/vic.lzsa",
            "C:\\work\\dir/sid.lzsa",
            "C:\\work\\dir/cia1.bin",
            "C:\\work\\dir/cia2.bin",
            "C:\\work\\dir/zp.lzsa",
            "C:\\work\\dir/relocated.bin",
            "C:\\work\\dir/ram.lzsa"
        ]
    );
    assert_eq!(files[6].content, vec![0xEA]);
    assert_eq!(files[7].content, vec![7, 7]);
    assert_eq!(files[3].content, vec![4; 20]);

    let mut tools = Toolchain::new(vec![Ok(vec![0xEA; 256]), Ok(vec![0x0B, 0x08])]);
    assert_eq!(g.generate_prg(&mut tools), Ok(vec![0x01, 0x08, 0x0B, 0x08]));
    let mut tools = Toolchain::new(vec![Ok(vec![0xEA; 257])]);
    assert_eq!(
        g.generate_prg(&mut tools),
        Err("Relocated code too large: 257 bytes (max 256)".to_string())
    );
    let mut tools = Toolchain::new(vec![Err("syntax".to_string())]);
    assert_eq!(
        g.generate_prg(&mut tools),
        Err("Relocated code assembly failed: syntax".to_string())
    );
    let mut tools = Toolchain::new(vec![Ok(vec![0xEA]), Err("syntax".to_string())]);
    assert_eq!(g.generate_prg(&mut tools), Err("Assembly failed: syntax".to_string()));
    let mut tools = Toolchain::new(vec![Ok(vec![0xEA])]);
    assert!(g.generate_prg(&mut tools).is_err());
    match tools.into_pending() {
        Some(ToolRequest::AssembleWithFiles(text, files)) => {
            assert_eq!(text, source);
            assert_eq!(files.len(), 8);
            assert_eq!(files[6].content, vec![0xEA]);
        }
        other => panic!("{:?}", other),
    }
}

fn trampoline(pad: usize) -> Vec<u8> {
    let mut code = vec![0x85, 0x93, 0x78];
    code.extend(vec![0xEA; pad]);
    code.extend_from_slice(&[0x18, 0x60, 0x8E, 0x00, 0xDE, 0x8C, 0x02, 0xDE, 0x60, 0x20]);
    code
}

#[test]
fn routines_are_found_in_the_trampoline() {
    let mut hook = LoadSaveHook::new(0xF0, true, Some(0x0334));
    hook.find_addresses(&trampoline(5)).unwrap();
    assert_eq!(hook.get_copy_data_addr(), 0x0334 + 10 + 7);
    let mut hook = LoadSaveHook::new(0xF0, true, None);
    assert_eq!(hook.get_trampoline_address(), 0x0334);
    let mut twice = vec![0x18, 0x60, 0xEA, 0x18, 0x60];
    twice.extend_from_slice(&[0x8E, 0x00, 0xDE, 0x8C, 0x02, 0xDE, 0x60]);
    twice.extend_from_slice(&[0x8E, 0x00, 0xDE, 0x8C, 0x02, 0xDE, 0x60]);
    hook.find_addresses(&twice).unwrap();
    assert_eq!(hook.get_copy_data_addr(), 0x0334 + 5 + 7);

    let failure = Err("Failed to find routine addresses in assembled code".to_string());
    assert_eq!(hook.find_addresses(&[]), failure);
    assert_eq!(hook.find_addresses(&[0x18, 0x60, 0x8E, 0x00, 0xDE, 0x8C, 0x02]), failure);
    assert_eq!(hook.find_addresses(&[0x8E, 0x00, 0xDE, 0x8C, 0x02, 0xDE, 0x18, 0x60]), failure);
    assert_eq!(hook.find_addresses(&[0x18, 0xEA, 0x8E, 0x00, 0xDE, 0x8C, 0x02, 0xDE]), failure);
    assert_eq!(hook.get_copy_data_addr(), 0x0334 + 5 + 7);

    let mut at_zero = LoadSaveHook::new(0xF0, true, Some(0x0000));
    assert_eq!(at_zero.find_addresses(&[0x18, 0x60, 0x8E, 0x00, 0xDE, 0x8C, 0x02, 0xDE]), failure);
    assert!(at_zero.find_addresses(&[0xEA, 0x18, 0x60, 0x8E, 0x00, 0xDE, 0x8C, 0x02, 0xDE]).is_ok());
}

#[test]
fn the_trampoline_is_built_in_passes() {
    let mut hook = LoadSaveHook::new(0xF7, true, Some(0x0100));
    assert_eq!(LoadSaveHook::auto_trampoline_address(242), 0x0100);
    assert_eq!(LoadSaveHook::auto_trampoline_address(241), 0x0334);
    let first = hook.generate_trampoline_asm(0x01F0);
    assert!(first.starts_with("*=$0100\n\nload_trampoline:\n"));
    assert!(first.contains("    LDA ($BB),Y\n    STA $01F0,Y\n"));

    let code = trampoline(4);
    let mut tools = Toolchain::new(vec![]);
    assert!(hook.generate_trampoline_binary(&mut tools).is_err());
    assert_eq!(assembled(tools), first);

    let mut tools = Toolchain::new(vec![Ok(code.clone())]);
    assert!(hook.generate_trampoline_binary(&mut tools).is_err());
    assert!(assembled(tools).contains("    STA $0111,Y\n"));

    let mut tools = Toolchain::new(vec![Ok(code.clone()), Ok(code.clone())]);
    assert_eq!(hook.generate_trampoline_binary(&mut tools), Ok(code.clone()));
    assert!(tools.into_pending().is_none());
    assert_eq!(hook.get_temp_filename_addr(), 0x0111);
    assert_eq!(hook.get_copy_data_addr(), 0x0100 + 9 + 7);
    assert_eq!(hook.get_trampoline_binary(), &code[..]);

    let longer = trampoline(5);
    let mut hook = LoadSaveHook::new(0xF7, true, Some(0x0100));
    let mut tools = Toolchain::new(vec![Ok(code.clone()), Ok(longer.clone()), Ok(longer.clone())]);
    assert_eq!(hook.generate_trampoline_binary(&mut tools), Ok(longer.clone()));
    assert_eq!(hook.get_temp_filename_addr(), 0x0112);

    let mut hook = LoadSaveHook::new(0xF7, true, Some(0x0100));
    let mut tools = Toolchain::new(vec![Ok(code.clone()), Ok(longer.clone()), Ok(code.clone())]);
    assert_eq!(
        hook.generate_trampoline_binary(&mut tools),
        Err("Code size unstable: 18 vs 17".to_string())
    );

    let mut none = LoadSaveHook::new(0xF7, false, Some(0x0100));
    let mut tools = Toolchain::new(vec![]);
    assert_eq!(none.generate_trampoline_binary(&mut tools), Ok(vec![]));
    assert_eq!(none.generate_load_save_rom_code(&mut tools), Ok(vec![]));
    let mut ram = [0x11u8; 65536];
    assert_eq!(none.hook_load_and_save(&mut ram, &mut tools), Ok(()));
    assert!(ram.iter().all(|&b| b == 0x11));
    assert!(tools.into_pending().is_none());
}

#[test]
fn vectors_point_at_the_trampoline() {
    let code = trampoline(4);
    let mut hook = LoadSaveHook::new(0x80, true, Some(0x0334));
    let mut ram = [0x11u8; 65536];
    let mut tools = Toolchain::new(vec![Ok(code.clone()), Ok(code.clone())]);
    hook.hook_load_and_save(&mut ram, &mut tools).unwrap();
    assert_eq!(&ram[0x0334..0x0334 + 17], &code[..]);
    assert_eq!(&ram[0x0330..0x0334], &[0x34, 0x03, 0x3B, 0x03]);
    assert_eq!(ram[0x032F], 0x11);
    assert_eq!(ram[0x0334 + 17], 0x11);

    let handler = hook.generate_romh_handler_asm();
    assert!(handler.starts_with("*=$A600\n"));
    assert!(handler.contains("    LDA #$00\n    STA $0345,X\n"));
    assert!(handler.contains("    LDA $0345,Y\n"));
    assert!(handler.contains("    LDY #$07\n    JSR $0344\n"));
    let mut tools = Toolchain::new(vec![Ok(vec![0xAD, 0x0D, 0xDD])]);
    assert_eq!(hook.generate_load_save_rom_code(&mut tools), Ok(vec![0xAD, 0x0D, 0xDD]));

    let mut fresh = LoadSaveHook::new(0x80, true, Some(0x0334));
    let mut tools = Toolchain::new(vec![Ok(code.clone()), Ok(code.clone())]);
    assert!(fresh.generate_load_save_rom_code(&mut tools).is_err());
    assert_eq!(assembled(tools), handler);

    let mut high = LoadSaveHook::new(0x80, true, Some(0xFFF8));
    let mut ram = [0x11u8; 65536];
    let mut tools = Toolchain::new(vec![Ok(code.clone()), Ok(code.clone())]);
    assert_eq!(
        high.hook_load_and_save(&mut ram, &mut tools),
        Err("Trampoline code exceeds RAM bounds".to_string())
    );
    assert!(ram.iter().all(|&b| b == 0x11));
}

#[test]
fn wildcards_of_the_handler() {
    let names = vec![b"GAME1".to_vec(), b"GAME2".to_vec()];
    assert_eq!(LoadSaveHook::find_file(b"GAME*", &names), Some(0));
    assert_eq!(LoadSaveHook::find_file(b"GAM?1", &names), Some(0));
    assert_eq!(LoadSaveHook::find_file(b"GAM?2", &names), Some(1));
    assert_eq!(LoadSaveHook::find_file(b"GAME2", &names), Some(1));
    assert_eq!(LoadSaveHook::find_file(b"game2", &names), Some(1));
    assert_eq!(LoadSaveHook::find_file(b"GAME 1", &names), None);
    assert_eq!(LoadSaveHook::find_file(b"GAME3", &names), None);
    assert_eq!(LoadSaveHook::find_file(b"", &names), Some(0));
    assert_eq!(LoadSaveHook::find_file(b"*", &[]), None);

    assert!(LoadSaveHook::pattern_matches(b"GAME 1", b"GAME 1"));
    assert!(!LoadSaveHook::pattern_matches(b"GAME 1", b"GAME1"));
    assert!(!LoadSaveHook::pattern_matches(b"GAME 1", b"GAME"));
    assert!(LoadSaveHook::pattern_matches(b"GAME  ", b"GAME"));
    assert!(LoadSaveHook::pattern_matches(b"GAME ? *X", b"GAME"));
    assert!(!LoadSaveHook::pattern_matches(b"GAME X", b"GAME"));
    assert!(LoadSaveHook::pattern_matches(b"GAME", b"GAME1"));
    assert!(!LoadSaveHook::pattern_matches(b"GAME1", b"GAME"));
    assert!(!LoadSaveHook::pattern_matches(b"GAME?", b"GAME"));
    assert!(LoadSaveHook::pattern_matches(b"?????", b"GAME1"));
    assert!(LoadSaveHook::pattern_matches(&[0xC7, 0x61, b'M', b'E'], b"GAME"));
    assert!(!LoadSaveHook::pattern_matches(b"GAME", b"game"));
}
