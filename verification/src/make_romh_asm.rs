//! High window of bank 0 of the 16 KiB cartridge.
//!
//! The high window holds the startup routine at the reset vector, which
//! copies a trampoline to `$0100`; the trampoline copies the restore routine
//! from the low window to `$0340`. Where files are embedded it also holds the
//! load/save handler, the directory and the file names.

use vstd::prelude::*;
use vstd::string::*;
use crate::asm_wrapper::assemble_to_bytes;
use crate::bytes::{overlay, repeat, write_bytes};
use crate::crt_builder::BANK_SIZE_8K;
use crate::text::{hex_padded, hex_width};
use crate::toolchain::{spec_assemble, ReplyView, Toolchain};

verus! {

/// Source of the startup code in the high window, part 1 of 2.
pub const ROMH_0: &'static str = r#"; C64 EasyFlash ROMH @ $E000
; Boot routine that copies trampoline to $100 and jumps there
*=$E000

EASYFLASH_ROML = $DE00
EASYFLASH_CONTROL = $DE02

; $E000: RTI for NMI/IRQ vectors
    RTI

; $E001: RESET entry point
start:
    SEI
    CLD

    LDA #$37
    STA $00
    LDA #$37
    STA $01

    LDA $DC0D
    LDA $DD0D
    LDA #$7F
    STA $DC0D
    STA $DD0D
    LDA #$00
    STA $D01A
    LDA #$FF
    STA $D019

    LDX #$FF
    TXS

    LDX #$00
copy_boot_trampoline:
    LDA boot_trampoline_code,X
    STA $0100,X
    INX
    CPX #BOOT_TRAMPOLINE_SIZE
    BNE copy_boot_trampoline

    JMP $0100

    JMP after_trampoline

boot_trampoline_code:
"#;

/// Source of the startup code in the high window, part 2 of 2.
pub const ROMH_1: &'static str = r#"
boot_trampoline_end:

after_trampoline:
BOOT_TRAMPOLINE_SIZE = boot_trampoline_end - boot_trampoline_code

*=$FFFA
    .word $E000    ; NMI vector
    .word $E001    ; RESET vector
    .word $E000    ; IRQ vector
"#;

/// Source of the boot trampoline, part 1 of 5.
pub const BOOT_TRAMPOLINE_0: &'static str = r#"    ; Trampoline @ $0100 (MINIMAL)

    LDA #$37
    STA $01

    LDA #$00
    STA EASYFLASH_ROML

    LDA #$06
    STA EASYFLASH_CONTROL

    LDA #$33
    STA $01

    ; Copy restore code from ROML $"#;

/// Source of the boot trampoline, part 2 of 5.
pub const BOOT_TRAMPOLINE_1: &'static str = r#" to RAM $0340
    LDA #$"#;

/// Source of the boot trampoline, part 3 of 5.
pub const BOOT_TRAMPOLINE_2: &'static str = r#"
    STA $FC
    LDA #$"#;

/// Source of the boot trampoline, part 4 of 5.
pub const BOOT_TRAMPOLINE_3: &'static str = r#"
    STA $FB

    LDA #$03
    STA $FE
    LDA #$40
    STA $FD

    LDA #$"#;

/// Source of the boot trampoline, part 5 of 5.
pub const BOOT_TRAMPOLINE_4: &'static str = r#"
    STA $F8

copy_restore:
    LDA $F8
    BEQ restore_done
    LDY #$00
copy_restore_byte:
    LDA ($FB),Y
    STA ($FD),Y
    INY
    BNE copy_restore_byte
    INC $FC
    INC $FE
    DEC $F8
    BNE copy_restore

restore_done:
    JMP $0340
"#;

/// Offset of the load/save handler in the high window; it runs at `$A600`.
pub const LOAD_SAVE_OFFSET: usize = 0x0600;

/// Most bytes of the load/save handler that are kept.
pub const LOAD_SAVE_MAX: usize = 0x0A00;

/// Offset of the directory in the high window; it is read at `$B000`.
pub const METADATA_OFFSET: usize = 0x1000;

/// Most bytes of the directory that are kept.
pub const METADATA_MAX: usize = 0x0800;

/// Offset of the file names in the high window; they are read at `$B800`.
pub const FILENAMES_OFFSET: usize = 0x1800;

/// Most bytes of the file names that are kept: the area up to the vectors.
pub const FILENAMES_MAX: usize = 0x07FA;

/// Offset of the three vectors in the high window.
pub const VECTORS_OFFSET: usize = 0x1FFA;

/// The vectors at `$FFFA`: interrupts go to the return at `$E000`, reset to
/// the startup routine at `$E001`.
pub open spec fn vectors() -> Seq<u8> {
    seq![0x00, 0xE0, 0x01, 0xE0, 0x00, 0xE0]
}

/// `window` with at most `max` bytes of `part`, if there is one, written at
/// `offset`.
pub open spec fn with_part(window: Seq<u8>, part: Option<Seq<u8>>, offset: int, max: int) -> Seq<
    u8,
> {
    match part {
        Some(bytes) => overlay(
            window,
            offset,
            bytes.take(
                if bytes.len() < max {
                    bytes.len() as int
                } else {
                    max
                },
            ),
        ),
        None => window,
    }
}

/// The high window: the assembled startup code at its start, the vectors at
/// its end, and over these the load/save handler, the directory and the file
/// names, each at its offset.
pub open spec fn romh_window(
    assembled: Seq<u8>,
    load_save_code: Option<Seq<u8>>,
    metadata: Option<Seq<u8>>,
    filenames: Option<Seq<u8>>,
) -> Seq<u8> {
    let code = overlay(
        repeat(0, BANK_SIZE_8K as nat),
        0,
        assembled.take(
            if assembled.len() < BANK_SIZE_8K {
                assembled.len() as int
            } else {
                BANK_SIZE_8K as int
            },
        ),
    );
    let with_vectors = overlay(code, VECTORS_OFFSET as int, vectors());
    let with_handler = with_part(
        with_vectors,
        load_save_code,
        LOAD_SAVE_OFFSET as int,
        LOAD_SAVE_MAX as int,
    );
    let with_metadata = with_part(
        with_handler,
        metadata,
        METADATA_OFFSET as int,
        METADATA_MAX as int,
    );
    with_part(with_metadata, filenames, FILENAMES_OFFSET as int, FILENAMES_MAX as int)
}

/// The view of an optional byte string.
pub open spec fn part_view(part: Option<Vec<u8>>) -> Option<Seq<u8>> {
    match part {
        Some(bytes) => Some(bytes@),
        None => None,
    }
}

/// The view of a window or a message.
pub open spec fn window_result_view(r: Result<[u8; 8192], String>) -> ReplyView {
    match r {
        Ok(window) => Ok(window@),
        Err(message) => Err(message@),
    }
}

/// Writes at most `max` bytes of `part` into `window` at `offset`.
fn write_part(window: &mut [u8; 8192], part: &Option<Vec<u8>>, offset: usize, max: usize)
    requires
        offset + max <= 8192,
    ensures
        final(window)@ == with_part(old(window)@, part_view(*part), offset as int, max as int),
{
    match part {
        Some(bytes) => {
            let copy_size = if bytes.len() < max {
                bytes.len()
            } else {
                max
            };
            write_bytes(window, offset, vstd::slice::slice_subrange(bytes.as_slice(), 0, copy_size));
        },
        None => {
            assert(window@ =~= old(window)@);
        },
    }
}

/// The source of the trampoline, which copies the pages of a restore routine
/// of `size` bytes from `$8000` to `$0340`.
pub open spec fn boot_trampoline_text(size: usize) -> Seq<char> {
    BOOT_TRAMPOLINE_0@ + hex_padded(0x8000, 4) + BOOT_TRAMPOLINE_1@ + hex_padded(0x80, 2) + BOOT_TRAMPOLINE_2@ + hex_padded(
        0x00,
        2,
    ) + BOOT_TRAMPOLINE_3@ + hex_padded(((size + 255) / 256) as nat, 2) + BOOT_TRAMPOLINE_4@
}

/// The source of the startup code, with the trampoline in it.
pub open spec fn romh_text(size: usize) -> Seq<char> {
    ROMH_0@ + boot_trampoline_text(size) + ROMH_1@
}

/// Generator of the high window of bank 0.
pub struct MakeROMHAsm {
    restore_code_size: usize,
    load_save_code: Option<Vec<u8>>,
    metadata: Option<Vec<u8>>,
    filenames: Option<Vec<u8>>,
}

impl MakeROMHAsm {
    /// Size of the restore routine that the trampoline copies.
    pub closed spec fn restore_code_size(&self) -> usize {
        self.restore_code_size
    }

    /// The load/save handler, if files are embedded.
    pub closed spec fn load_save_code(&self) -> Option<Seq<u8>> {
        part_view(self.load_save_code)
    }

    /// The directory, if files are embedded.
    pub closed spec fn metadata(&self) -> Option<Seq<u8>> {
        part_view(self.metadata)
    }

    /// The file names, if files are embedded.
    pub closed spec fn filenames(&self) -> Option<Seq<u8>> {
        part_view(self.filenames)
    }

    /// The size of the restore routine can be rounded up to pages in a
    /// machine word.
    pub open spec fn wf(&self) -> bool {
        self.restore_code_size() + 255 <= usize::MAX
    }

    /// A generator for the given restore routine size and parts.
    pub fn new(
        restore_code_size: usize,
        load_save_code: Option<Vec<u8>>,
        metadata: Option<Vec<u8>>,
        filenames: Option<Vec<u8>>,
    ) -> (r: Self)
        ensures
            r.restore_code_size() == restore_code_size,
            r.load_save_code() == part_view(load_save_code),
            r.metadata() == part_view(metadata),
            r.filenames() == part_view(filenames),
    {
        MakeROMHAsm { restore_code_size, load_save_code, metadata, filenames }
    }

    /// The high window made of the assembled startup code and the parts.
    pub fn build_romh(&self, assembled: &[u8]) -> (romh: [u8; 8192])
        ensures
            romh@ == romh_window(
                assembled@,
                self.load_save_code(),
                self.metadata(),
                self.filenames(),
            ),
    {
        let mut romh = [0u8; 8192];
        assert(romh@ =~= repeat(0, BANK_SIZE_8K as nat));
        let copy_len = if assembled.len() < BANK_SIZE_8K {
            assembled.len()
        } else {
            BANK_SIZE_8K
        };
        write_bytes(&mut romh, 0, vstd::slice::slice_subrange(assembled, 0, copy_len));
        let vectors: [u8; 6] = [0x00, 0xE0, 0x01, 0xE0, 0x00, 0xE0];
        assert(vectors@ =~= self::vectors());
        write_bytes(&mut romh, VECTORS_OFFSET, vectors.as_slice());
        write_part(&mut romh, &self.load_save_code, LOAD_SAVE_OFFSET, LOAD_SAVE_MAX);
        write_part(&mut romh, &self.metadata, METADATA_OFFSET, METADATA_MAX);
        write_part(&mut romh, &self.filenames, FILENAMES_OFFSET, FILENAMES_MAX);
        romh
    }

    /// Assembles the startup code and builds the high window.
    pub fn generate_romh(&self, tools: &mut Toolchain) -> (r: Result<[u8; 8192], String>)
        requires
            self.wf(),
        ensures
            final(tools)@ == spec_assemble(old(tools)@, romh_text(self.restore_code_size())).1,
            window_result_view(r) == match spec_assemble(old(tools)@, romh_text(self.restore_code_size())).0 {
                Ok(assembled) => Ok(
                    romh_window(
                        assembled,
                        self.load_save_code(),
                        self.metadata(),
                        self.filenames(),
                    ),
                ),
                Err(message) => Err(message),
            },
    {
        let asm_source = self.generate_romh_asm();
        match assemble_to_bytes(tools, asm_source.as_str()) {
            Ok(assembled) => Ok(self.build_romh(assembled.as_slice())),
            Err(e) => Err(e),
        }
    }

    /// The source of the startup code.
    pub fn generate_romh_asm(&self) -> (r: String)
        requires
            self.wf(),
        ensures
            r@ == romh_text(self.restore_code_size()),
    {
        let boot_trampoline_asm = self.generate_boot_trampoline_asm();
        let mut s = String::from_str(ROMH_0);
        s.append(boot_trampoline_asm.as_str());
        s.append(ROMH_1);
        s
    }

    /// The source of the trampoline.
    pub fn generate_boot_trampoline_asm(&self) -> (r: String)
        requires
            self.wf(),
        ensures
            r@ == boot_trampoline_text(self.restore_code_size()),
    {
        let roml_restore_code_start: usize = 0x8000;
        let src_hi = roml_restore_code_start / 256 % 256;
        let src_lo = roml_restore_code_start % 256;
        let pages = (self.restore_code_size + 255) / 256;
        let mut s = String::from_str(BOOT_TRAMPOLINE_0);
        s.append(hex_width(roml_restore_code_start, 4).as_str());
        s.append(BOOT_TRAMPOLINE_1);
        s.append(hex_width(src_hi, 2).as_str());
        s.append(BOOT_TRAMPOLINE_2);
        s.append(hex_width(src_lo, 2).as_str());
        s.append(BOOT_TRAMPOLINE_3);
        s.append(hex_width(pages, 2).as_str());
        s.append(BOOT_TRAMPOLINE_4);
        s
    }
}

} // verus!
