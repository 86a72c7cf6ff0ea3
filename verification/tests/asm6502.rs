use vice_snapshot_to_prg_converter::asm6502::{AsmError, Assembler6502, EXE_NAME};
use vice_snapshot_to_prg_converter::config::Config;

fn words(error: AsmError) -> String {
    match error {
        AsmError::Asm(message) => message,
        AsmError::Io(message) => format!("io: {}", message),
    }
}

#[test]
fn the_assembler_is_called_for_raw_output() {
    assert_eq!(EXE_NAME, "vasm6502_std");
    assert_eq!(
        Assembler6502::arguments("/w/temp_1.bin", "/w/temp_1.asm"),
        vec!["-Fbin", "-quiet", "-chklabels", "-o", "/w/temp_1.bin", "/w/temp_1.asm"]
    );
    assert_eq!(Assembler6502::source_name("17_ThreadId(1)"), "temp_17_ThreadId(1).asm");
    assert_eq!(Assembler6502::output_name("17_ThreadId(1)"), "temp_17_ThreadId(1).bin");
    assert_eq!(Assembler6502::new(&Config::new("/tmp/w")).work_dir(), "/tmp/w");
}

#[test]
fn a_failed_run_is_put_into_words() {
    assert_eq!(
        words(Assembler6502::failure(Some(1), "error 2 in line 3", "ignored")),
        "VASM compilation failed (exit code: 1)\n\nErrors:\nerror 2 in line 3"
    );
    assert_eq!(
        words(Assembler6502::failure(Some(255), "", "something")),
        "VASM compilation failed (exit code: 255)\n\nOutput:\nsomething"
    );
    assert_eq!(
        words(Assembler6502::failure(None, "", "")),
        "VASM compilation failed (exit code: -1)\n\n(no output from assembler)\n"
    );
    assert_eq!(
        words(Assembler6502::failure(Some(i32::MIN), "", "")),
        "VASM compilation failed (exit code: -2147483648)\n\n(no output from assembler)\n"
    );
    assert_eq!(
        words(Assembler6502::failure(Some(0), "x", "")),
        "VASM compilation failed (exit code: 0)\n\nErrors:\nx"
    );
}

#[test]
fn a_run_must_leave_a_binary() {
    assert_eq!(
        words(Assembler6502::checked_binary(None).err().unwrap()),
        "VASM reported success but no output file was produced."
    );
    assert_eq!(
        words(Assembler6502::checked_binary(Some(vec![])).err().unwrap()),
        "VASM produced an empty output file."
    );
    assert_eq!(Assembler6502::checked_binary(Some(vec![0x60])).unwrap(), vec![0x60]);
}

#[test]
fn a_program_file_begins_with_its_load_address() {
    let assembler = Assembler6502::new(&Config::new("w"));
    assert_eq!(assembler.assemble_prg(Ok(vec![0x0B, 0x08])).unwrap(), vec![0x01, 0x08, 0x0B, 0x08]);
    assert_eq!(assembler.assemble_prg(Ok(vec![])).unwrap(), vec![0x01, 0x08]);
    assert_eq!(
        words(assembler.assemble_prg(Err(AsmError::Io("denied".to_string()))).err().unwrap()),
        "io: denied"
    );
}
