//! Restore routine of the 8 KiB cartridge.
//!
//! The routine runs at `$0340`. It copies the relocated decompressor and the
//! compressed RAM from the banks of the cartridge to the top of RAM, switches
//! the cartridge off for good, restores the chips and the zero page, and
//! starts the decompressor in the stack page.

use vstd::prelude::*;
use vstd::string::*;
use crate::asm_text::{format_bytes, format_bytes_text};
use crate::asm_wrapper::assemble_to_bytes;
use crate::text::{decimal, decimal_chars, hex4, hex4_chars, hex_padded, hex_width};
use crate::toolchain::{reply_view, spec_assemble, Toolchain};

verus! {

/// Source of the routine that copies the payload out of the cartridge, part 1 of 8.
pub const COPY_0: &'static str = r#"    ; =============================================================================
    ; DIRECT copy from ROML to final position (NO temp buffer)
    ; Use $01=$33 throughout - ROML visible for reads, RAM for writes!
    ; Reads from ROML cartridge, writes go to RAM underneath
    ; =============================================================================

    ; Enable I/O to access Magic Desk register
    LDA #$37
    STA $01

    ; Select ROML bank
    LDA #$"#;

/// Source of the routine that copies the payload out of the cartridge, part 2 of 8.
pub const COPY_1: &'static str = r#"
    STA $F7
    STA MAGIC_DESK_BANK

    ; Switch to $01=$33 (ROML visible for reading, RAM for writing!)
    LDA #$33
    STA $01

    ; Set source pointer (ROML)
    LDA #$"#;

/// Source of the routine that copies the payload out of the cartridge, part 3 of 8.
pub const COPY_2: &'static str = r#"
    STA $FC
    LDA #$"#;

/// Source of the routine that copies the payload out of the cartridge, part 4 of 8.
pub const COPY_3: &'static str = r#"
    STA $FB

    ; Set destination pointer (RAM)
    LDA #$"#;

/// Source of the routine that copies the payload out of the cartridge, part 5 of 8.
pub const COPY_4: &'static str = r#"
    STA $FE
    LDA #$"#;

/// Source of the routine that copies the payload out of the cartridge, part 6 of 8.
pub const COPY_5: &'static str = r#"
    STA $FD

    ; Total bytes to copy (high byte in $F8, low in $F9)
    LDA #$"#;

/// Source of the routine that copies the payload out of the cartridge, part 7 of 8.
pub const COPY_6: &'static str = r#"
    STA $F8
    LDA #$"#;

/// Source of the routine that copies the payload out of the cartridge, part 8 of 8.
pub const COPY_7: &'static str = r#"
    STA $F9

copy_loop:
    ; Check if done (both bytes zero)
    LDA $F8
    BNE copy_byte
    LDA $F9
    BEQ copy_done

copy_byte:
    ; Copy one byte
    LDY #$00
    LDA ($FB),Y
    STA ($FD),Y

    ; Increment source pointer
    INC $FB
    BNE skip_src_hi
    INC $FC
    ; Check for bank boundary
    LDA $FC
    CMP #$A0
    BNE skip_src_hi
    ; Switch bank (enable I/O briefly, then back to $33)
    LDA #$37
    STA $01
    INC $F7
    LDA $F7
    STA MAGIC_DESK_BANK
    LDA #$33
    STA $01
    LDA #$80
    STA $FC
    LDA #$00
    STA $FB
skip_src_hi:

    ; Increment dest pointer
    INC $FD
    BNE skip_dst_hi
    INC $FE
skip_dst_hi:

    ; Decrement byte counter (16-bit)
    LDA $F9
    BNE dec_lo
    DEC $F8
dec_lo:
    DEC $F9

    JMP copy_loop

copy_done:

    ; CRITICAL: Disable Magic Desk cartridge before decompression!
    ; Must enable I/O first to access $DE00
    LDA #$37
    STA $01

    ; Disable Magic Desk permanently (bit 7 = 1)
    LDA #$80
    STA MAGIC_DESK_BANK

    ; CRITICAL: Clear ALL pending interrupts after cartridge disable
    LDA $DC0D     ; Read CIA1 ICR (clears pending IRQ)
    LDA $DD0D     ; Read CIA2 ICR (clears pending NMI from FLAG pin!)
    LDA #$FF
    STA $D019     ; Clear VIC interrupt flags

    ; Now set memory mode for decompression: ALL RAM, no I/O (like PRG does)
    LDA #$34
    STA $01

    ; End data copy complete - Magic Desk is now completely OFF
"#;

/// Source of the restore routine, part 1 of 13.
pub const MAIN_0: &'static str = r#"; C64 Magic Desk CRT Snapshot Restore Code
; Entry point: $0340 (called from boot trampoline @ $0100)
*=$0340

; Magic Desk register (bank select + disable)
MAGIC_DESK_BANK = $DE00

; Constants for RAM data (relocated decompressor + RAM.lzsa at end of memory)
RELOCATED_SIZE = "#;

/// Source of the restore routine, part 2 of 13.
pub const MAIN_1: &'static str = r#"
RAM_DATA_SIZE = "#;

/// Source of the restore routine, part 3 of 13.
pub const MAIN_2: &'static str = r#"
END_DATA_START = $"#;

/// Source of the restore routine, part 4 of 13.
pub const MAIN_3: &'static str = r#"
RAM_LZSA_START = $"#;

/// Source of the restore routine, part 5 of 13.
pub const MAIN_4: &'static str = r#"

; LZSA1 zero page variables
LZSA_SRC_LO = $FC
LZSA_SRC_HI = $FD
LZSA_DST_LO = $FE
LZSA_DST_HI = $FF
LZSA_CMDBUF = $F9
LZSA_WINPTR = $FA
LZSA_OFFSET = $FA

start:
    SEI
    CLD

"#;

/// Source of the restore routine, part 6 of 13.
pub const MAIN_5: &'static str = r#"

    ; Set $01 to same value PRG uses
    LDA #$35
    STA $01

    ; Set $00 early (not always set by system at this point)
    LDA #$2F
    STA $00

    ; Clear all pending interrupts
    LDA $DC0D
    LDA $DD0D
    LDA #$7F
    STA $DC0D
    STA $DD0D
    LDA #$00
    STA $D01A
    LDA #$FF
    STA $D019

    ; TEMPORARY stack @ $03FF (page 3) - NOT the final snapshot SP!
    LDX #$FF
    TXS

    LDA #<color_data
    STA LZSA_SRC_LO
    LDA #>color_data
    STA LZSA_SRC_HI
    LDA #$00
    STA LZSA_DST_LO
    LDA #$D8
    STA LZSA_DST_HI
    JSR decompress_lzsa1

    LDA #<vic_data
    STA LZSA_SRC_LO
    LDA #>vic_data
    STA LZSA_SRC_HI
    LDA #$00
    STA LZSA_DST_LO
    LDA #$D0
    STA LZSA_DST_HI
    JSR decompress_lzsa1

    ; Setup VIC raster position early
    LDA $D011
    STA $D011
    LDA $D012
    STA $D012

    LDA #$00
    STA $D01A

    LDA #$FF
    STA $D019

    LDA #<sid_data
    STA LZSA_SRC_LO
    LDA #>sid_data
    STA LZSA_SRC_HI
    LDA #$00
    STA LZSA_DST_LO
    LDA #$D4
    STA LZSA_DST_HI
    JSR decompress_lzsa1

; =============================================================================
; CIA1 Complete Setup
; =============================================================================
    LDA #$7F
    STA $DC0D
    LDA #$00
    STA $DC0E
    STA $DC0F

    LDA cia1_data+2
    STA $DC02
    LDA cia1_data+3
    STA $DC03
    LDA cia1_data+0
    STA $DC00
    LDA cia1_data+1
    STA $DC01

    ; Timer A: Write counter, force-load, write latch
    LDA cia1_data+16
    STA $DC04
    LDA cia1_data+17
    STA $DC05
    LDA #$10
    STA $DC0E
    LDA #$00
    STA $DC0E
    LDA cia1_data+4
    STA $DC04
    LDA cia1_data+5
    STA $DC05

    ; Timer B: Write counter, force-load, write latch
    LDA cia1_data+18
    STA $DC06
    LDA cia1_data+19
    STA $DC07
    LDA #$10
    STA $DC0F
    LDA #$00
    STA $DC0F
    LDA cia1_data+6
    STA $DC06
    LDA cia1_data+7
    STA $DC07

    ; TOD registers (hours->minutes->seconds->tenths)
    LDA cia1_data+11
    STA $DC0B
    LDA cia1_data+10
    STA $DC0A
    LDA cia1_data+9
    STA $DC09
    LDA cia1_data+8
    STA $DC08

    ; SDR and control registers (WITHOUT start bit - safe!)
    LDA cia1_data+12
    STA $DC0C
    LDA cia1_data+14
    AND #$FE
    STA $DC0E
    LDA cia1_data+15
    AND #$FE
    STA $DC0F

; =============================================================================
; CIA2 Complete Setup
; =============================================================================
    LDA #$7F
    STA $DD0D
    LDA #$00
    STA $DD0E
    STA $DD0F

    LDA cia2_data+2
    STA $DD02
    LDA cia2_data+3
    STA $DD03
    LDA cia2_data+0
    STA $DD00
    LDA cia2_data+1
    STA $DD01

    LDA cia2_data+16
    STA $DD04
    LDA cia2_data+17
    STA $DD05
    LDA #$10
    STA $DD0E
    LDA #$00
    STA $DD0E
    LDA cia2_data+4
    STA $DD04
    LDA cia2_data+5
    STA $DD05

    LDA cia2_data+18
    STA $DD06
    LDA cia2_data+19
    STA $DD07
    LDA #$10
    STA $DD0F
    LDA #$00
    STA $DD0F
    LDA cia2_data+6
    STA $DD06
    LDA cia2_data+7
    STA $DD07

    LDA cia2_data+11
    STA $DD0B
    LDA cia2_data+10
    STA $DD0A
    LDA cia2_data+9
    STA $DD09
    LDA cia2_data+8
    STA $DD08

    LDA cia2_data+12
    STA $DD0C
    LDA cia2_data+14
    AND #$FE
    STA $DD0E
    LDA cia2_data+15
    AND #$FE
    STA $DD0F

; =============================================================================
; Decompress Zero Page
; =============================================================================
    LDA #<zp_data
    STA LZSA_SRC_LO
    LDA #>zp_data
    STA LZSA_SRC_HI
    LDA #$02
    STA LZSA_DST_LO
    LDA #$00
    STA LZSA_DST_HI
    JSR decompress_lzsa1

    ; =============================================================================
    ; Clear $F8-$FB (critical! Like PRG does)
    ; =============================================================================
    LDA #$00
    STA $F8
    STA $F9
    STA $FA
    STA $FB

    ; =============================================================================
    ; Copy relocated decompressor from end of memory to $0100
    ; Then decompress RAM (exactly like PRG does)
    ; =============================================================================

    ; CRITICAL: Switch to all-RAM mode BEFORE copying relocated decompressor!
    ; If END_DATA_START falls in $D000-$DFFF, reading with I/O visible ($01=$35)
    ; would return I/O register values instead of RAM data, corrupting the decompressor.
    LDA #$34
    STA $01

    LDX #<END_DATA_START
    LDY #>END_DATA_START
    STX $FE
    STY $FF
    LDY #$00
CPLP:
    LDA ($FE),Y
    STA $0100,Y
    INY
    CPY #<RELOCATED_SIZE
    BNE CPLP

    ; Set up LZSA source pointer to RAM.lzsa (after relocated decompressor)
    LDA #<RAM_LZSA_START
    STA LZSA_SRC_LO
    LDA #>RAM_LZSA_START
    STA LZSA_SRC_HI

    ; Start decompression at $0200 - skip $0100-$01FF where decompressor lives!
    LDA #$00
    STA LZSA_DST_LO
    LDA #$02
    STA LZSA_DST_HI

    ; Jump to relocated decompressor @ $0100
    JMP $0100

; =============================================================================
; Data section
; =============================================================================
color_data:
"#;

/// Source of the restore routine, part 7 of 13.
pub const MAIN_6: &'static str = r#"
vic_data:
"#;

/// Source of the restore routine, part 8 of 13.
pub const MAIN_7: &'static str = r#"
sid_data:
"#;

/// Source of the restore routine, part 9 of 13.
pub const MAIN_8: &'static str = r#"
cia1_data:
"#;

/// Source of the restore routine, part 10 of 13.
pub const MAIN_9: &'static str = r#"
cia2_data:
"#;

/// Source of the restore routine, part 11 of 13.
pub const MAIN_10: &'static str = r#"
zp_data:
"#;

/// Source of the restore routine, part 12 of 13.
pub const MAIN_11: &'static str = r#"
f8_ff_data:
"#;

/// Source of the restore routine, part 13 of 13.
pub const MAIN_12: &'static str = r#"

; =============================================================================
; LZSA1 Decompressor
; =============================================================================
decompress_lzsa1:
    LDY #0
    LDX #0

cp_length:
    LDA (LZSA_SRC_LO),Y
    INC LZSA_SRC_LO
    BNE cp_skip0
    INC LZSA_SRC_HI

cp_skip0:
    STA LZSA_CMDBUF
    AND #$70
    LSR
    BEQ lz_offset
    LSR
    LSR
    LSR
    CMP #$07
    BCC cp_got_len
    JSR get_length
    STX cp_npages+1

cp_got_len:
    TAX

cp_byte:
    LDA (LZSA_SRC_LO),Y
    STA (LZSA_DST_LO),Y
    INC LZSA_SRC_LO
    BNE cp_skip1
    INC LZSA_SRC_HI
cp_skip1:
    INC LZSA_DST_LO
    BNE cp_skip2
    INC LZSA_DST_HI
cp_skip2:
    DEX
    BNE cp_byte
cp_npages:
    LDA #0
    BEQ lz_offset
    DEC cp_npages+1
    BCC cp_byte

lz_offset:
    LDA (LZSA_SRC_LO),Y
    INC LZSA_SRC_LO
    BNE offset_lo
    INC LZSA_SRC_HI

offset_lo:
    STA LZSA_OFFSET+0

    LDA #$FF
    BIT LZSA_CMDBUF
    BPL offset_hi

    LDA (LZSA_SRC_LO),Y
    INC LZSA_SRC_LO
    BNE offset_hi
    INC LZSA_SRC_HI

offset_hi:
    STA LZSA_OFFSET+1

lz_length:
    LDA LZSA_CMDBUF
    AND #$0F
    ADC #$03
    CMP #$12
    BCC got_lz_len
    JSR get_length

got_lz_len:
    INX
    EOR #$FF
    TAY
    EOR #$FF

get_lz_dst:
    ADC LZSA_DST_LO
    STA LZSA_DST_LO
    INY
    BCS get_lz_win
    BEQ get_lz_win
    DEC LZSA_DST_HI

get_lz_win:
    CLC
    ADC LZSA_OFFSET+0
    STA LZSA_WINPTR+0
    LDA LZSA_DST_HI
    ADC LZSA_OFFSET+1
    STA LZSA_WINPTR+1

lz_byte:
    LDA (LZSA_WINPTR),Y
    STA (LZSA_DST_LO),Y
    INY
    BNE lz_byte
    INC LZSA_DST_HI
    DEX
    BNE lz_more
    JMP cp_length

lz_more:
    INC LZSA_WINPTR+1
    LDY #$00
    BEQ lz_byte

get_length:
    CLC
    ADC (LZSA_SRC_LO),Y
    INC LZSA_SRC_LO
    BNE skip_inc
    INC LZSA_SRC_HI

skip_inc:
    BCC got_length
    CLC
    TAX

extra_byte:
    JSR get_byte
    PHA
    TXA
    BEQ extra_word

check_length:
    PLA
    BNE got_length
    DEX
got_length:
    RTS

extra_word:
    JSR get_byte
    TAX
    BNE check_length

finished:
    PLA
    PLA
    PLA
    RTS

get_byte:
    LDA (LZSA_SRC_LO),Y
    INC LZSA_SRC_LO
    BNE got_byte
    INC LZSA_SRC_HI
got_byte:
    RTS
"#;

/// Source of the relocated decompressor, part 1 of 2.
pub const RELOCATED_0: &'static str = r#"*=$0100

LZSA_SRC_LO = $FC
LZSA_SRC_HI = $FD
LZSA_DST_LO = $FE
LZSA_DST_HI = $FF
LZSA_CMDBUF = $F9
LZSA_WINPTR = $FA
LZSA_OFFSET = $FA

; Relocated LZSA1 decompressor in page 1
DECOMPRESS_LZSA1:
    LDY #0
    LDX #0

cp_length:
    LDA (LZSA_SRC_LO),Y
    INC LZSA_SRC_LO
    BNE cp_skip0
    INC LZSA_SRC_HI

cp_skip0:
    STA LZSA_CMDBUF
    AND #$70
    LSR
    BEQ lz_offset
    LSR
    LSR
    LSR
    CMP #$07
    BCC cp_got_len
    JSR get_length
    STX cp_npages+1

cp_got_len:
    TAX

cp_byte:
    LDA (LZSA_SRC_LO),Y
    STA (LZSA_DST_LO),Y
    INC LZSA_SRC_LO
    BNE cp_skip1
    INC LZSA_SRC_HI
cp_skip1:
    INC LZSA_DST_LO
    BNE cp_skip2
    INC LZSA_DST_HI
cp_skip2:
    DEX
    BNE cp_byte
cp_npages:
    LDA #0
    BEQ lz_offset
    DEC cp_npages+1
    BCC cp_byte

lz_offset:
    LDA (LZSA_SRC_LO),Y
    INC LZSA_SRC_LO
    BNE offset_lo
    INC LZSA_SRC_HI

offset_lo:
    STA LZSA_OFFSET+0

    LDA #$FF
    BIT LZSA_CMDBUF
    BPL offset_hi

    LDA (LZSA_SRC_LO),Y
    INC LZSA_SRC_LO
    BNE offset_hi
    INC LZSA_SRC_HI

offset_hi:
    STA LZSA_OFFSET+1

lz_length:
    LDA LZSA_CMDBUF
    AND #$0F
    ADC #$03
    CMP #$12
    BCC got_lz_len
    JSR get_length

got_lz_len:
    INX
    EOR #$FF
    TAY
    EOR #$FF

get_lz_dst:
    ADC LZSA_DST_LO
    STA LZSA_DST_LO
    INY
    BCS get_lz_win
    BEQ get_lz_win
    DEC LZSA_DST_HI

get_lz_win:
    CLC
    ADC LZSA_OFFSET+0
    STA LZSA_WINPTR+0
    LDA LZSA_DST_HI
    ADC LZSA_OFFSET+1
    STA LZSA_WINPTR+1

lz_byte:
    LDA (LZSA_WINPTR),Y
    STA (LZSA_DST_LO),Y
    INY
    BNE lz_byte
    INC LZSA_DST_HI
    DEX
    BNE lz_more
    JMP cp_length

lz_more:
    INC LZSA_WINPTR+1
    LDY #$00
    BEQ lz_byte

get_length:
    CLC
    ADC (LZSA_SRC_LO),Y
    INC LZSA_SRC_LO
    BNE skip_inc
    INC LZSA_SRC_HI

skip_inc:
    BCC got_length
    CLC
    TAX

extra_byte:
    JSR get_byte
    PHA
    TXA
    BEQ extra_word

check_length:
    PLA
    BNE got_length
    DEX
got_length:
    RTS

extra_word:
    JSR get_byte
    TAX
    BNE check_length

finished:
    ; Decompression complete - set pure RAM mode for block 9 stack write
    LDA #$30
    STA $01
    JMP $"#;

/// Source of the relocated decompressor, part 2 of 2.
pub const RELOCATED_1: &'static str = r#"

get_byte:
    LDA (LZSA_SRC_LO),Y
    INC LZSA_SRC_LO
    BNE got_byte
    INC LZSA_SRC_HI
got_byte:
    RTS
"#;

/// The message for a register block of an interface adapter that is not 20
/// bytes long.
pub open spec fn cia_size_message(number: nat, len: nat) -> Seq<char> {
    "CIA"@ + decimal_chars(number) + " file must be 20 bytes, got "@ + decimal_chars(len)
}

/// Generator of the restore routine.
pub struct MakeMagicDeskCRTAsm {
    color_lzsa: Vec<u8>,
    vic_lzsa: Vec<u8>,
    sid_lzsa: Vec<u8>,
    cia1_bin: Vec<u8>,
    cia2_bin: Vec<u8>,
    zp_lzsa: Vec<u8>,
    block9_addr: u16,
    f8_ff_data: [u8; 8],
    relocated_size: usize,
    ram_lzsa_size: usize,
    restore_code_size: usize,
    boot_code_size: usize,
}

/// What a generator works on, as a spec value.
pub struct RestoreParts {
    /// The compressed color memory.
    pub color: Seq<u8>,
    /// The compressed video chip registers.
    pub vic: Seq<u8>,
    /// The compressed sound chip registers.
    pub sid: Seq<u8>,
    /// The register block of the first interface adapter.
    pub cia1: Seq<u8>,
    /// The register block of the second interface adapter.
    pub cia2: Seq<u8>,
    /// The compressed zero page.
    pub zp: Seq<u8>,
    /// The bytes of `$F8..=$FF`.
    pub f8_ff: Seq<u8>,
    /// Address of the routine that the decompressor jumps to.
    pub block9: u16,
    /// Size of the relocated decompressor.
    pub relocated_size: usize,
    /// Size of the compressed RAM.
    pub ram_lzsa_size: usize,
    /// Size of the restore routine.
    pub restore_code_size: usize,
    /// Size of the boot code at the start of bank 0.
    pub extra_size: usize,
}

impl View for MakeMagicDeskCRTAsm {
    type V = RestoreParts;

    closed spec fn view(&self) -> RestoreParts {
        RestoreParts {
            color: self.color_lzsa@,
            vic: self.vic_lzsa@,
            sid: self.sid_lzsa@,
            cia1: self.cia1_bin@,
            cia2: self.cia2_bin@,
            zp: self.zp_lzsa@,
            f8_ff: self.f8_ff_data@,
            block9: self.block9_addr,
            relocated_size: self.relocated_size,
            ram_lzsa_size: self.ram_lzsa_size,
            restore_code_size: self.restore_code_size,
            extra_size: self.boot_code_size,
        }
    }
}

/// Size of what is copied to the top of RAM: the relocated decompressor and
/// the compressed RAM.
pub open spec fn ram_data_size(p: RestoreParts) -> nat {
    (p.relocated_size + p.ram_lzsa_size) as nat
}

/// Address in RAM at which the copied data begins; it ends with the address
/// space.
pub open spec fn end_data_start(p: RestoreParts) -> nat {
    (0x10000 - ram_data_size(p)) as nat
}

/// Address in RAM at which the compressed RAM begins.
pub open spec fn ram_lzsa_start(p: RestoreParts) -> nat {
    (end_data_start(p) + p.relocated_size) as nat
}

/// Address in the low window at which the data to copy begins: behind
/// the boot code and the restore routine.
pub open spec fn roml_end_data_start(p: RestoreParts) -> nat {
    (0x8000 + p.extra_size + p.restore_code_size) as nat
}

/// Bank in which the data to copy begins.
pub open spec fn source_bank(p: RestoreParts) -> nat {
    ((roml_end_data_start(p) - 0x8000) / 8192) as nat
}

/// High byte of the address at which the data to copy begins.
pub open spec fn source_high(p: RestoreParts) -> nat {
    roml_end_data_start(p) / 256 % 256
}

/// Low byte of the address at which the data to copy begins.
pub open spec fn source_low(p: RestoreParts) -> nat {
    roml_end_data_start(p) % 256
}

/// The sizes are such that every address computed from them exists: the data
/// for the top of RAM fits into RAM, and the sizes of what lies in the low
/// window add up in a machine word.
pub open spec fn parts_wf(p: RestoreParts) -> bool {
    &&& p.relocated_size + p.ram_lzsa_size <= 0x10000
    &&& 0x8000 + p.extra_size + p.restore_code_size <= usize::MAX
}

/// The source of the routine that copies `end_data_size` bytes from the
/// cartridge to `ram_end_data_start`.
pub open spec fn data_copy_text(p: RestoreParts, ram_end_data_start: usize, end_data_size: usize) -> Seq<
    char,
> {
    COPY_0@ + hex_padded(source_bank(p), 2) + COPY_1@ + hex_padded(source_high(p), 2) + COPY_2@ + hex_padded(source_low(p), 2) + COPY_3@ + hex_padded(ram_end_data_start as nat / 256 % 256, 2) + COPY_4@ + hex_padded(ram_end_data_start as nat % 256, 2) + COPY_5@ + hex_padded(end_data_size as nat / 256 % 256, 2) + COPY_6@ + hex_padded(end_data_size as nat % 256, 2) + COPY_7@
}

/// The source of the restore routine.
pub open spec fn main_code_text(p: RestoreParts) -> Seq<char> {
    MAIN_0@ + decimal_chars(p.relocated_size as nat) + MAIN_1@ + decimal_chars(ram_data_size(p)) + MAIN_2@ + hex_padded(end_data_start(p), 4) + MAIN_3@ + hex_padded(ram_lzsa_start(p), 4) + MAIN_4@ + data_copy_text(p, end_data_start(p) as usize, ram_data_size(p) as usize) + MAIN_5@ + format_bytes_text(p.color) + MAIN_6@ + format_bytes_text(p.vic) + MAIN_7@ + format_bytes_text(p.sid) + MAIN_8@ + format_bytes_text(p.cia1) + MAIN_9@ + format_bytes_text(p.cia2) + MAIN_10@ + format_bytes_text(p.zp) + MAIN_11@ + format_bytes_text(p.f8_ff) + MAIN_12@
}

/// The source of the relocated decompressor, which ends in a jump to
/// `block9`.
pub open spec fn relocated_text(block9: u16) -> Seq<char> {
    RELOCATED_0@ + hex4_chars(block9) + RELOCATED_1@
}

impl MakeMagicDeskCRTAsm {
    /// A generator for the given streams and sizes.
    ///
    /// Fails if a register block of an interface adapter is not 20 bytes
    /// long.
    pub fn new(
        color_lzsa: Vec<u8>,
        vic_lzsa: Vec<u8>,
        sid_lzsa: Vec<u8>,
        cia1_bin: Vec<u8>,
        cia2_bin: Vec<u8>,
        zp_lzsa: Vec<u8>,
        block9_addr: u16,
        f8_ff_data: [u8; 8],
        relocated_size: usize,
        ram_lzsa_size: usize,
        restore_code_size: usize,
        boot_code_size: usize,
    ) -> (r: Result<Self, String>)
        ensures
            cia1_bin@.len() != 20 ==> (r matches Err(m) && m@ == cia_size_message(
                1,
                cia1_bin@.len(),
            )),
            cia1_bin@.len() == 20 && cia2_bin@.len() != 20 ==> (r matches Err(m) && m@
                == cia_size_message(2, cia2_bin@.len())),
            cia1_bin@.len() == 20 && cia2_bin@.len() == 20 ==> (r matches Ok(g) && g@ == (
            RestoreParts {
                color: color_lzsa@,
                vic: vic_lzsa@,
                sid: sid_lzsa@,
                cia1: cia1_bin@,
                cia2: cia2_bin@,
                zp: zp_lzsa@,
                f8_ff: f8_ff_data@,
                block9: block9_addr,
                relocated_size,
                ram_lzsa_size,
                restore_code_size,
                extra_size: boot_code_size,
            })),
    {
        if cia1_bin.len() != 20 {
            let mut m = String::from_str("CIA");
            m.append(decimal(1).as_str());
            m.append(" file must be 20 bytes, got ");
            m.append(decimal(cia1_bin.len()).as_str());
            return Err(m);
        }
        if cia2_bin.len() != 20 {
            let mut m = String::from_str("CIA");
            m.append(decimal(2).as_str());
            m.append(" file must be 20 bytes, got ");
            m.append(decimal(cia2_bin.len()).as_str());
            return Err(m);
        }
        Ok(
            MakeMagicDeskCRTAsm {
                color_lzsa,
                vic_lzsa,
                sid_lzsa,
                cia1_bin,
                cia2_bin,
                zp_lzsa,
                block9_addr,
                f8_ff_data,
                relocated_size,
                ram_lzsa_size,
                restore_code_size,
                boot_code_size,
            },
        )
    }

    /// Assembles the restore routine, which is placed at `$0340`.
    pub fn generate_restore_code_binary(&self, tools: &mut Toolchain) -> (r: Result<Vec<u8>, String>)
        requires
            parts_wf(self@),
        ensures
            (reply_view(r), final(tools)@) == spec_assemble(old(tools)@, main_code_text(self@)),
    {
        let main_asm = self.generate_main_code_asm6502();
        assemble_to_bytes(tools, main_asm.as_str())
    }

    /// The source of the routine that copies the data for the top of RAM out
    /// of the cartridge.
    pub fn generate_data_copy_code(&self, ram_end_data_start: usize, end_data_size: usize) -> (r:
        String)
        requires
            parts_wf(self@),
        ensures
            r@ == data_copy_text(self@, ram_end_data_start, end_data_size),
    {
        let roml_end_data_start: usize = 0x8000usize + self.boot_code_size + self.restore_code_size;
        let source_bank = (roml_end_data_start - 0x8000) / 8192;
        let source_hi = roml_end_data_start / 256 % 256;
        let source_lo = roml_end_data_start % 256;
        let mut s = String::from_str(COPY_0);
        s.append(hex_width(source_bank, 2).as_str());
        s.append(COPY_1);
        s.append(hex_width(source_hi, 2).as_str());
        s.append(COPY_2);
        s.append(hex_width(source_lo, 2).as_str());
        s.append(COPY_3);
        s.append(hex_width(ram_end_data_start / 256 % 256, 2).as_str());
        s.append(COPY_4);
        s.append(hex_width(ram_end_data_start % 256, 2).as_str());
        s.append(COPY_5);
        s.append(hex_width(end_data_size / 256 % 256, 2).as_str());
        s.append(COPY_6);
        s.append(hex_width(end_data_size % 256, 2).as_str());
        s.append(COPY_7);
        s
    }

    /// The source of the restore routine.
    pub fn generate_main_code_asm6502(&self) -> (r: String)
        requires
            parts_wf(self@),
        ensures
            r@ == main_code_text(self@),
    {
        let ram_data_size = self.relocated_size + self.ram_lzsa_size;
        let end_data_start = 0x10000 - ram_data_size;
        let ram_lzsa_start = end_data_start + self.relocated_size;
        let data_copy_code = self.generate_data_copy_code(end_data_start, ram_data_size);
        let color_data = self.format_bytes(self.color_lzsa.as_slice());
        let vic_data = self.format_bytes(self.vic_lzsa.as_slice());
        let sid_data = self.format_bytes(self.sid_lzsa.as_slice());
        let cia1_data = self.format_bytes(self.cia1_bin.as_slice());
        let cia2_data = self.format_bytes(self.cia2_bin.as_slice());
        let zp_data = self.format_bytes(self.zp_lzsa.as_slice());
        let f8_ff_bytes = self.format_bytes(self.f8_ff_data.as_slice());
        let mut s = String::from_str(MAIN_0);
        s.append(decimal(self.relocated_size).as_str());
        s.append(MAIN_1);
        s.append(decimal(ram_data_size).as_str());
        s.append(MAIN_2);
        s.append(hex_width(end_data_start, 4).as_str());
        s.append(MAIN_3);
        s.append(hex_width(ram_lzsa_start, 4).as_str());
        s.append(MAIN_4);
        s.append(data_copy_code.as_str());
        s.append(MAIN_5);
        s.append(color_data.as_str());
        s.append(MAIN_6);
        s.append(vic_data.as_str());
        s.append(MAIN_7);
        s.append(sid_data.as_str());
        s.append(MAIN_8);
        s.append(cia1_data.as_str());
        s.append(MAIN_9);
        s.append(cia2_data.as_str());
        s.append(MAIN_10);
        s.append(zp_data.as_str());
        s.append(MAIN_11);
        s.append(f8_ff_bytes.as_str());
        s.append(MAIN_12);
        s
    }

    /// Assembles the relocated decompressor.
    pub fn generate_relocated_decompressor(&self, tools: &mut Toolchain) -> (r: Result<
        Vec<u8>,
        String,
    >)
        ensures
            (reply_view(r), final(tools)@) == spec_assemble(old(tools)@, relocated_text(self@.block9)),
    {
        let mut asm_source = String::from_str(RELOCATED_0);
        asm_source.append(hex4(self.block9_addr).as_str());
        asm_source.append(RELOCATED_1);
        assemble_to_bytes(tools, asm_source.as_str())
    }

    /// Lists `data` as assembly source.
    pub fn format_bytes(&self, data: &[u8]) -> (r: String)
        ensures
            r@ == format_bytes_text(data@),
    {
        format_bytes(data)
    }
}

} // verus!
