//! Boot code of the 8 KiB cartridge.
//!
//! The boot code lies at the start of bank 0. It carries the signature that
//! makes the machine start the cartridge on reset, and copies a trampoline to
//! `$0100`, which copies the restore routine to `$0340` and jumps there.

use vstd::prelude::*;
use vstd::string::*;
use crate::asm_wrapper::assemble_to_bytes;
use crate::text::{hex_padded, hex_width};
use crate::toolchain::{reply_view, spec_assemble, Toolchain};

verus! {

/// Source of the boot code, part 1 of 2.
pub const BOOT_0: &'static str = r#"; Magic Desk Boot Code @ $8000
; CBM80 signature enables KERNAL autostart: JMP ($8000) on RESET
*=$8000

; =============================================================================
; Standard C64 cartridge header (9 bytes)
; =============================================================================
    ; Cold start vector (points to cold_start below)
    .word cold_start
    ; Warm start vector (same as cold start)
    .word cold_start
    ; CBM80 signature: $C3, $C2, $CD, $38, $30
    .byte $C3, $C2, $CD, $38, $30

; =============================================================================
; cold_start: Initialize CPU and copy trampoline to $0100
; =============================================================================
cold_start:
    SEI
    CLD

    ; Set up CPU port for I/O access
    ; CRITICAL: Set PORT ($01) BEFORE DDR ($00)!
    ; If DDR is set first, bits 0-2 become outputs using the OLD PORT value,
    ; which may have LORAM=0, causing ROML to unmap mid-execution.
    LDA #$37
    STA $01
    LDA #$2F
    STA $00

    ; Clear all pending interrupts
    LDA $DC0D
    LDA $DD0D
    LDA #$7F
    STA $DC0D
    STA $DD0D
    LDA #$00
    STA $D01A
    LDA #$FF
    STA $D019

    ; Set stack pointer to $FF
    LDX #$FF
    TXS

    ; Copy trampoline code to $0100
    LDX #$00
copy_trampoline:
    LDA trampoline_code,X
    STA $0100,X
    INX
    CPX #TRAMPOLINE_SIZE
    BNE copy_trampoline

    ; Jump to trampoline in RAM @ $0100
    JMP $0100

; =============================================================================
; Trampoline code (will be copied to $0100)
; Copies restore code from ROML to $0340, handles bank boundaries
; =============================================================================
trampoline_code:
"#;

/// Source of the boot code, part 2 of 2.
pub const BOOT_1: &'static str = r#"
trampoline_end:

TRAMPOLINE_SIZE = trampoline_end - trampoline_code
"#;

/// Source of the boot trampoline, part 1 of 2.
pub const TRAMPOLINE_0: &'static str = r#"    ; Trampoline @ $0100 (MINIMAL - copy restore code from ROML to $0340)

    ; Select bank 0 via $DE00 (I/O already enabled from boot code)
    LDA #$00
    STA $DE00
    STA $F7           ; Bank counter in $F7

    ; Switch to ROML+RAM mode (ROML visible for reads, RAM for writes)
    LDA #$33
    STA $01

    ; =============================================================================
    ; Copy restore code from ROML to RAM $0340
    ; Source: ROML bank 0, starting after boot code (address set by labels)
    ; =============================================================================

    ; Source pointer: payload starts right after boot code
    LDA #>trampoline_end
    STA $FC
    LDA #<trampoline_end
    STA $FB

    ; Destination: $0340
    LDA #$03
    STA $FE
    LDA #$40
    STA $FD

    ; Pages to copy
    LDA #$"#;

/// Source of the boot trampoline, part 2 of 2.
pub const TRAMPOLINE_1: &'static str = r#"
    STA $F8

copy_restore:
    LDA $F8
    BEQ restore_done
    LDY #$00
copy_restore_byte:
    LDA ($FB),Y
    STA ($FD),Y
    INY
    BNE copy_restore_byte
    INC $FC
    INC $FE
    ; Check for bank boundary ($A000 = end of ROML window)
    LDA $FC
    CMP #$A0
    BNE no_bank_switch
    ; Switch to next bank
    LDA #$37
    STA $01
    INC $F7
    LDA $F7
    STA $DE00
    LDA #$33
    STA $01
    LDA #$80
    STA $FC           ; Reset source to $8000
    LDA #$00
    STA $FB
no_bank_switch:
    DEC $F8
    BNE copy_restore

restore_done:
    ; Jump to main restore code in RAM @ $0340
    JMP $0340"#;

/// Most pages of 256 bytes that the trampoline can copy.
pub const MAX_PAGES: usize = 255;

/// Number of pages of 256 bytes that hold `size` bytes.
pub open spec fn pages_for(size: nat) -> nat {
    (size + 255) / 256
}

/// Generator of the boot code.
pub struct MakeMagicDeskBootAsm {
    restore_code_size: usize,
}

/// The trampoline can copy a restore routine of `size` bytes: it has at most
/// 255 pages.
pub open spec fn can_copy(size: usize) -> bool {
    pages_for(size as nat) <= MAX_PAGES
}

/// The source of the trampoline, which copies as many pages as a restore
/// routine of `size` bytes has.
pub open spec fn trampoline_text(size: usize) -> Seq<char> {
    TRAMPOLINE_0@ + hex_padded(pages_for(size as nat), 2) + TRAMPOLINE_1@
}

/// The source of the boot code, with the trampoline in it.
pub open spec fn boot_text(size: usize) -> Seq<char> {
    BOOT_0@ + trampoline_text(size) + BOOT_1@
}

impl MakeMagicDeskBootAsm {
    /// Size of the restore routine that the trampoline copies.
    pub closed spec fn restore_code_size(&self) -> usize {
        self.restore_code_size
    }

    /// The trampoline can copy the restore routine.
    pub open spec fn wf(&self) -> bool {
        can_copy(self.restore_code_size())
    }

    /// A generator for a restore routine of `restore_code_size` bytes.
    pub fn new(restore_code_size: usize) -> (r: Self)
        ensures
            r.restore_code_size() == restore_code_size,
    {
        MakeMagicDeskBootAsm { restore_code_size }
    }

    /// Assembles the boot code, which is placed at the start of bank 0.
    pub fn generate_boot_code(&self, tools: &mut Toolchain) -> (r: Result<Vec<u8>, String>)
        requires
            self.wf(),
        ensures
            (reply_view(r), final(tools)@) == spec_assemble(old(tools)@, boot_text(self.restore_code_size())),
    {
        let asm_source = self.generate_boot_asm();
        assemble_to_bytes(tools, asm_source.as_str())
    }

    /// The source of the boot code.
    pub fn generate_boot_asm(&self) -> (r: String)
        requires
            self.wf(),
        ensures
            r@ == boot_text(self.restore_code_size()),
    {
        let trampoline_asm = self.generate_trampoline_asm();
        let mut s = String::from_str(BOOT_0);
        s.append(trampoline_asm.as_str());
        s.append(BOOT_1);
        s
    }

    /// The source of the trampoline.
    pub fn generate_trampoline_asm(&self) -> (r: String)
        requires
            self.wf(),
        ensures
            r@ == trampoline_text(self.restore_code_size()),
    {
        let pages = self.restore_code_size / 256 + if self.restore_code_size % 256 == 0 {
            0
        } else {
            1
        };
        assert(pages == pages_for(self.restore_code_size as nat));
        let mut s = String::from_str(TRAMPOLINE_0);
        s.append(hex_width(pages, 2).as_str());
        s.append(TRAMPOLINE_1);
        s
    }
}

} // verus!
