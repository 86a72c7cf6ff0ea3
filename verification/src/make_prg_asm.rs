//! Self-extracting program.
//!
//! The program is a one-line BASIC stub and a loader. The loader restores the
//! chips and the zero page from data sections in the program, moves the
//! relocated decompressor and the compressed RAM to the top of memory, copies
//! the decompressor to the stack page and starts it there.

use vstd::prelude::*;
use vstd::string::*;
use crate::asm_wrapper::{prg_file, Assembler6502Wrapper};
use crate::bytes::copy_range;
use crate::config::Config;
use crate::text::{decimal, decimal_chars, hex4, hex4_chars};
use crate::toolchain::{
    file_list_view, reply_view, spec_assemble, spec_run, DataFile, ReplyView, RequestView,
    ToolRequest, ToolState, Toolchain,
};

verus! {

/// Source of the loader, part 1 of 9.
pub const MAIN_0: &'static str = r#"; C64 LZSA1 Snapshot Loader - Conservative Optimization
*=$0801

; BASIC stub: SYS 2061
.byte $0B,$08,$0A,$00,$9E,$32,$30,$36,$31,$00,$00,$00

; LZSA1 zero page variables
LZSA_SRC_LO = $FC
LZSA_SRC_HI = $FD
LZSA_DST_LO = $FE
LZSA_DST_HI = $FF
LZSA_CMDBUF = $F9
LZSA_WINPTR = $FA
LZSA_OFFSET = $FA

start:
    SEI
    CLD

    ; Clear all pending interrupts
    LDA $DC0D
    LDA $DD0D
    LDA #$7F
    STA $DC0D
    STA $DD0D
    LDA #$00
    STA $D01A
    LDA #$FF
    STA $D019

    ; Initialize memory map and stack
    LDA #$35
    STA $01
    LDX #$FF
    TXS

    ; Decompress Color RAM
    LDA #<color_data
    STA LZSA_SRC_LO
    LDA #>color_data
    STA LZSA_SRC_HI
    LDA #$00
    STA LZSA_DST_LO
    LDA #$D8
    STA LZSA_DST_HI
    JSR decompress_lzsa1

    ; Decompress VIC registers
    LDA #<vic_data
    STA LZSA_SRC_LO
    LDA #>vic_data
    STA LZSA_SRC_HI
    LDA #$00
    STA LZSA_DST_LO
    LDA #$D0
    STA LZSA_DST_HI
    JSR decompress_lzsa1

    ; OPTIMIZATION: Setup VIC raster position early (moved from $01xx)
    ; This is 100% safe - no interrupts enabled yet
    LDA $D011
    STA $D011
    LDA $D012
    STA $D012

    ; Disable VIC IRQs (extra safety)
    LDA #$00
    STA $D01A

    ; Clear VIC IRQ flags
    LDA #$FF
    STA $D019

    ; Decompress SID registers
    LDA #<sid_data
    STA LZSA_SRC_LO
    LDA #>sid_data
    STA LZSA_SRC_HI
    LDA #$00
    STA LZSA_DST_LO
    LDA #$D4
    STA LZSA_DST_HI
    JSR decompress_lzsa1

; =============================================================================
; CIA1 Complete Setup (100% safe - no timers started yet)
; =============================================================================
    ; Disable all interrupts and stop timers
    LDA #$7F
    STA $DC0D
    LDA #$00
    STA $DC0E
    STA $DC0F

    ; Restore port registers
    LDA cia1_data+2
    STA $DC02
    LDA cia1_data+3
    STA $DC03
    LDA cia1_data+0
    STA $DC00
    LDA cia1_data+1
    STA $DC01

    ; Timer A: Write counter, force-load, write latch
    LDA cia1_data+16
    STA $DC04
    LDA cia1_data+17
    STA $DC05
    LDA #$10
    STA $DC0E
    LDA #$00
    STA $DC0E
    LDA cia1_data+4
    STA $DC04
    LDA cia1_data+5
    STA $DC05

    ; Timer B: Write counter, force-load, write latch
    LDA cia1_data+18
    STA $DC06
    LDA cia1_data+19
    STA $DC07
    LDA #$10
    STA $DC0F
    LDA #$00
    STA $DC0F
    LDA cia1_data+6
    STA $DC06
    LDA cia1_data+7
    STA $DC07

    ; TOD registers (hours->minutes->seconds->tenths)
    LDA cia1_data+11
    STA $DC0B
    LDA cia1_data+10
    STA $DC0A
    LDA cia1_data+9
    STA $DC09
    LDA cia1_data+8
    STA $DC08

    ; SDR and control registers (WITHOUT start bit - safe!)
    LDA cia1_data+12
    STA $DC0C
    LDA cia1_data+14
    AND #$FE
    STA $DC0E
    LDA cia1_data+15
    AND #$FE
    STA $DC0F

; =============================================================================
; CIA2 Complete Setup (100% safe - no timers started yet)
; =============================================================================
    LDA #$7F
    STA $DD0D
    LDA #$00
    STA $DD0E
    STA $DD0F

    LDA cia2_data+2
    STA $DD02
    LDA cia2_data+3
    STA $DD03
    LDA cia2_data+0
    STA $DD00
    LDA cia2_data+1
    STA $DD01

    LDA cia2_data+16
    STA $DD04
    LDA cia2_data+17
    STA $DD05
    LDA #$10
    STA $DD0E
    LDA #$00
    STA $DD0E
    LDA cia2_data+4
    STA $DD04
    LDA cia2_data+5
    STA $DD05

    LDA cia2_data+18
    STA $DD06
    LDA cia2_data+19
    STA $DD07
    LDA #$10
    STA $DD0F
    LDA #$00
    STA $DD0F
    LDA cia2_data+6
    STA $DD06
    LDA cia2_data+7
    STA $DD07

    LDA cia2_data+11
    STA $DD0B
    LDA cia2_data+10
    STA $DD0A
    LDA cia2_data+9
    STA $DD09
    LDA cia2_data+8
    STA $DD08

    LDA cia2_data+12
    STA $DD0C
    LDA cia2_data+14
    AND #$FE
    STA $DD0E
    LDA cia2_data+15
    AND #$FE
    STA $DD0F

; =============================================================================
; Decompress Zero Page
; =============================================================================
    LDA #<zp_data
    STA LZSA_SRC_LO
    LDA #>zp_data
    STA LZSA_SRC_HI
    LDA #$02
    STA LZSA_DST_LO
    LDA #$00
    STA LZSA_DST_HI
    JSR decompress_lzsa1

    ; Switch to RAM-only mode
    LDA #$34
    STA $01

    ; Calculate RAM data block size
    LDA #<RAM_DATA_SIZE
    STA $F8
    LDA #>RAM_DATA_SIZE
    STA $F9

    ; Set source to end of RAM data
    LDA #<(RAM_DATA_END-1)
    STA $FE
    LDA #>(RAM_DATA_END-1)
    STA $FF

    ; Set destination to top of memory
    LDA #$FF
    STA $FC
    STA $FD

    ; Copy RAM data block to top of memory (backward)
    LDY #$00
MVLP:
    LDA ($FE),Y
    STA ($FC),Y
    LDA $FE
    BNE MV1
    DEC $FF
MV1:
    DEC $FE
    LDA $FC
    BNE MV2
    DEC $FD
MV2:
    DEC $FC
    LDA $F8
    BNE MV3
    DEC $F9
MV3:
    DEC $F8
    LDA $F8
    ORA $F9
    BNE MVLP

    ; Copy relocated decompressor to $0100-$01FF
    LDX #<($10000 - RAM_DATA_SIZE)
    LDY #>($10000 - RAM_DATA_SIZE)
    STX $FE
    STY $FF
    LDY #$00
CPLP:
    LDA ($FE),Y
    STA $0100,Y
    INY
    CPY #<RELOCATED_SIZE
    BNE CPLP

    ; Setup source pointer for final RAM decompression
    LDA #<($10000 - RAM_DATA_SIZE + RELOCATED_SIZE)
    STA LZSA_SRC_LO
    LDA #>($10000 - RAM_DATA_SIZE + RELOCATED_SIZE)
    STA LZSA_SRC_HI

    ; Setup destination pointer (start at $0200 - skip $0100-$01FF!)
    LDA #$00
    STA LZSA_DST_LO
    LDA #$02
    STA LZSA_DST_HI

    ; Jump to relocated decompressor
    JMP $0100

; =============================================================================
; Data section
; =============================================================================
color_data:
    .incbin ""#;

/// Source of the loader, part 2 of 9.
pub const MAIN_1: &'static str = r#"/color.lzsa"
vic_data:
    .incbin ""#;

/// Source of the loader, part 3 of 9.
pub const MAIN_2: &'static str = r#"/vic.lzsa"
sid_data:
    .incbin ""#;

/// Source of the loader, part 4 of 9.
pub const MAIN_3: &'static str = r#"/sid.lzsa"
cia1_data:
    .incbin ""#;

/// Source of the loader, part 5 of 9.
pub const MAIN_4: &'static str = r#"/cia1.bin"
cia2_data:
    .incbin ""#;

/// Source of the loader, part 6 of 9.
pub const MAIN_5: &'static str = r#"/cia2.bin"
zp_data:
    .incbin ""#;

/// Source of the loader, part 7 of 9.
pub const MAIN_6: &'static str = r#"/zp.lzsa"

ram_data_start:
relocated_code:
    .incbin ""#;

/// Source of the loader, part 8 of 9.
pub const MAIN_7: &'static str = r#"/relocated.bin"
relocated_end:
RELOCATED_SIZE = relocated_end-relocated_code

ram_compressed:
    .incbin ""#;

/// Source of the loader, part 9 of 9.
pub const MAIN_8: &'static str = r#"/ram.lzsa"
ram_data_end:
RAM_DATA_SIZE = ram_data_end-ram_data_start
RAM_DATA_END = ram_data_end

; =============================================================================
; LZSA1 Decompressor
; =============================================================================
decompress_lzsa1:
    LDY #0
    LDX #0

cp_length:
    LDA (LZSA_SRC_LO),Y
    INC LZSA_SRC_LO
    BNE cp_skip0
    INC LZSA_SRC_HI

cp_skip0:
    STA LZSA_CMDBUF
    AND #$70
    LSR
    BEQ lz_offset
    LSR
    LSR
    LSR
    CMP #$07
    BCC cp_got_len
    JSR get_length
    STX cp_npages+1

cp_got_len:
    TAX

cp_byte:
    LDA (LZSA_SRC_LO),Y
    STA (LZSA_DST_LO),Y
    INC LZSA_SRC_LO
    BNE cp_skip1
    INC LZSA_SRC_HI
cp_skip1:
    INC LZSA_DST_LO
    BNE cp_skip2
    INC LZSA_DST_HI
cp_skip2:
    DEX
    BNE cp_byte
cp_npages:
    LDA #0
    BEQ lz_offset
    DEC cp_npages+1
    BCC cp_byte

lz_offset:
    LDA (LZSA_SRC_LO),Y
    INC LZSA_SRC_LO
    BNE offset_lo
    INC LZSA_SRC_HI

offset_lo:
    STA LZSA_OFFSET+0

    LDA #$FF
    BIT LZSA_CMDBUF
    BPL offset_hi

    LDA (LZSA_SRC_LO),Y
    INC LZSA_SRC_LO
    BNE offset_hi
    INC LZSA_SRC_HI

offset_hi:
    STA LZSA_OFFSET+1

lz_length:
    LDA LZSA_CMDBUF
    AND #$0F
    ADC #$03
    CMP #$12
    BCC got_lz_len
    JSR get_length

got_lz_len:
    INX
    EOR #$FF
    TAY
    EOR #$FF

get_lz_dst:
    ADC LZSA_DST_LO
    STA LZSA_DST_LO
    INY
    BCS get_lz_win
    BEQ get_lz_win
    DEC LZSA_DST_HI

get_lz_win:
    CLC
    ADC LZSA_OFFSET+0
    STA LZSA_WINPTR+0
    LDA LZSA_DST_HI
    ADC LZSA_OFFSET+1
    STA LZSA_WINPTR+1

lz_byte:
    LDA (LZSA_WINPTR),Y
    STA (LZSA_DST_LO),Y
    INY
    BNE lz_byte
    INC LZSA_DST_HI
    DEX
    BNE lz_more
    JMP cp_length

lz_more:
    INC LZSA_WINPTR+1
    LDY #$00
    BEQ lz_byte

get_length:
    CLC
    ADC (LZSA_SRC_LO),Y
    INC LZSA_SRC_LO
    BNE skip_inc
    INC LZSA_SRC_HI

skip_inc:
    BCC got_length
    CLC
    TAX

extra_byte:
    JSR get_byte
    PHA
    TXA
    BEQ extra_word

check_length:
    PLA
    BNE got_length
    DEX
got_length:
    RTS

extra_word:
    JSR get_byte
    TAX
    BNE check_length

finished:
    PLA
    PLA
    PLA
    RTS

get_byte:
    LDA (LZSA_SRC_LO),Y
    INC LZSA_SRC_LO
    BNE got_byte
    INC LZSA_SRC_HI
got_byte:
    RTS
"#;

/// Source of the relocated decompressor, part 1 of 2.
pub const RELOCATED_0: &'static str = r#"*=$0100

LZSA_SRC_LO = $FC
LZSA_SRC_HI = $FD
LZSA_DST_LO = $FE
LZSA_DST_HI = $FF
LZSA_CMDBUF = $F9
LZSA_WINPTR = $FA
LZSA_OFFSET = $FA

; Relocated LZSA1 decompressor in page 1
DECOMPRESS_LZSA1:
    LDY #0
    LDX #0

cp_length:
    LDA (LZSA_SRC_LO),Y
    INC LZSA_SRC_LO
    BNE cp_skip0
    INC LZSA_SRC_HI

cp_skip0:
    STA LZSA_CMDBUF
    AND #$70
    LSR
    BEQ lz_offset
    LSR
    LSR
    LSR
    CMP #$07
    BCC cp_got_len
    JSR get_length
    STX cp_npages+1

cp_got_len:
    TAX

cp_byte:
    LDA (LZSA_SRC_LO),Y
    STA (LZSA_DST_LO),Y
    INC LZSA_SRC_LO
    BNE cp_skip1
    INC LZSA_SRC_HI
cp_skip1:
    INC LZSA_DST_LO
    BNE cp_skip2
    INC LZSA_DST_HI
cp_skip2:
    DEX
    BNE cp_byte
cp_npages:
    LDA #0
    BEQ lz_offset
    DEC cp_npages+1
    BCC cp_byte

lz_offset:
    LDA (LZSA_SRC_LO),Y
    INC LZSA_SRC_LO
    BNE offset_lo
    INC LZSA_SRC_HI

offset_lo:
    STA LZSA_OFFSET+0

    LDA #$FF
    BIT LZSA_CMDBUF
    BPL offset_hi

    LDA (LZSA_SRC_LO),Y
    INC LZSA_SRC_LO
    BNE offset_hi
    INC LZSA_SRC_HI

offset_hi:
    STA LZSA_OFFSET+1

lz_length:
    LDA LZSA_CMDBUF
    AND #$0F
    ADC #$03
    CMP #$12
    BCC got_lz_len
    JSR get_length

got_lz_len:
    INX
    EOR #$FF
    TAY
    EOR #$FF

get_lz_dst:
    ADC LZSA_DST_LO
    STA LZSA_DST_LO
    INY
    BCS get_lz_win
    BEQ get_lz_win
    DEC LZSA_DST_HI

get_lz_win:
    CLC
    ADC LZSA_OFFSET+0
    STA LZSA_WINPTR+0
    LDA LZSA_DST_HI
    ADC LZSA_OFFSET+1
    STA LZSA_WINPTR+1

lz_byte:
    LDA (LZSA_WINPTR),Y
    STA (LZSA_DST_LO),Y
    INY
    BNE lz_byte
    INC LZSA_DST_HI
    DEX
    BNE lz_more
    JMP cp_length

lz_more:
    INC LZSA_WINPTR+1
    BNE lz_byte

get_length:
    CLC
    ADC (LZSA_SRC_LO),Y
    INC LZSA_SRC_LO
    BNE skip_inc
    INC LZSA_SRC_HI

skip_inc:
    BCC got_length
    CLC
    TAX

extra_byte:
    JSR get_byte
    PHA
    TXA
    BEQ extra_word

check_length:
    PLA
    BNE got_length
    DEX
got_length:
    RTS

extra_word:
    JSR get_byte
    TAX
    BNE check_length

finished:
    ; Decompression complete - jump to block 9
    JMP $"#;

/// Source of the relocated decompressor, part 2 of 2.
pub const RELOCATED_1: &'static str = r#"

get_byte:
    LDA (LZSA_SRC_LO),Y
    INC LZSA_SRC_LO
    BNE got_byte
    INC LZSA_SRC_HI
got_byte:
    RTS
"#;

/// Largest relocated decompressor: it must fit into the stack page.
pub const MAX_RELOCATED_SIZE: usize = 256;

/// A path with every backslash replaced by a slash.
pub open spec fn forward_slashes_of(path: Seq<char>) -> Seq<char> {
    path.map_values(
        |c: char|
            if c == '\\' {
                '/'
            } else {
                c
            },
    )
}

/// The message for a register block of an interface adapter that is not 20
/// bytes long.
pub open spec fn cia_size_message(number: nat, len: nat) -> Seq<char> {
    "CIA"@ + decimal_chars(number) + " file must be 20 bytes, got "@ + decimal_chars(len)
}

/// The message for a relocated decompressor that does not fit into the stack
/// page.
pub open spec fn relocated_size_message(len: nat) -> Seq<char> {
    "Relocated code too large: "@ + decimal_chars(len) + " bytes (max 256)"@
}

/// The path of the file `name` in the directory `work`.
pub open spec fn data_path(work: Seq<char>, name: Seq<char>) -> Seq<char> {
    work + "/"@ + name
}

/// `str::replace` with a backslash as the pattern and a slash as the
/// replacement: the string with every backslash replaced by a slash.
#[verifier::external_body]
fn forward_slashes(path: &str) -> (r: String)
    ensures
        r@ == forward_slashes_of(path@),
{
    path.replace('\\', "/")
}

/// A file for the working directory.
fn data_file(work: &str, name: &str, content: &[u8]) -> (r: DataFile)
    ensures
        r.name@ == data_path(work@, name@),
        r.content@ == content@,
{
    let mut path = String::from_str(work);
    path.append("/");
    path.append(name);
    let copy = copy_range(content, 0, content.len());
    assert(copy@ =~= content@);
    DataFile { name: path, content: copy }
}

/// Generator of the self-extracting program.
pub struct MakePRGAsm {
    color_lzsa: Vec<u8>,
    vic_lzsa: Vec<u8>,
    sid_lzsa: Vec<u8>,
    cia1_bin: Vec<u8>,
    cia2_bin: Vec<u8>,
    zp_lzsa: Vec<u8>,
    ram_lzsa: Vec<u8>,
    block9_addr: u16,
    f8_ff_data: [u8; 8],
    config: Config,
}

/// What the generator works on, as a spec value.
pub struct ProgramParts {
    /// The compressed color memory.
    pub color: Seq<u8>,
    /// The compressed video chip registers.
    pub vic: Seq<u8>,
    /// The compressed sound chip registers.
    pub sid: Seq<u8>,
    /// The register block of the first interface adapter.
    pub cia1: Seq<u8>,
    /// The register block of the second interface adapter.
    pub cia2: Seq<u8>,
    /// The compressed zero page.
    pub zp: Seq<u8>,
    /// The compressed RAM.
    pub ram: Seq<u8>,
    /// Address of the routine that the decompressor jumps to.
    pub block9: u16,
    /// The working directory.
    pub work_path: Seq<char>,
}

impl View for MakePRGAsm {
    type V = ProgramParts;

    closed spec fn view(&self) -> ProgramParts {
        ProgramParts {
            color: self.color_lzsa@,
            vic: self.vic_lzsa@,
            sid: self.sid_lzsa@,
            cia1: self.cia1_bin@,
            cia2: self.cia2_bin@,
            zp: self.zp_lzsa@,
            ram: self.ram_lzsa@,
            block9: self.block9_addr,
            work_path: self.config.work_path@,
        }
    }
}

/// The source of the loader. It takes its data sections from the files in the
/// working directory.
pub open spec fn main_code_text(p: ProgramParts) -> Seq<char> {
    MAIN_0@ + forward_slashes_of(p.work_path) + MAIN_1@ + forward_slashes_of(p.work_path) + MAIN_2@ + forward_slashes_of(p.work_path) + MAIN_3@ + forward_slashes_of(p.work_path) + MAIN_4@ + forward_slashes_of(p.work_path) + MAIN_5@ + forward_slashes_of(p.work_path) + MAIN_6@ + forward_slashes_of(p.work_path) + MAIN_7@ + forward_slashes_of(p.work_path) + MAIN_8@
}

/// The source of the relocated decompressor, which ends in a jump to
/// `block9`.
pub open spec fn relocated_text(block9: u16) -> Seq<char> {
    RELOCATED_0@ + hex4_chars(block9) + RELOCATED_1@
}

/// The files that the source of the loader refers to.
pub open spec fn data_files_view(p: ProgramParts, relocated: Seq<u8>) -> Seq<(Seq<char>, Seq<u8>)> {
    seq![
        (data_path(p.work_path, "color.lzsa"@), p.color),
        (data_path(p.work_path, "vic.lzsa"@), p.vic),
        (data_path(p.work_path, "sid.lzsa"@), p.sid),
        (data_path(p.work_path, "cia1.bin"@), p.cia1),
        (data_path(p.work_path, "cia2.bin"@), p.cia2),
        (data_path(p.work_path, "zp.lzsa"@), p.zp),
        (data_path(p.work_path, "relocated.bin"@), relocated),
        (data_path(p.work_path, "ram.lzsa"@), p.ram),
    ]
}

/// What the program is, given the result of assembling the relocated
/// decompressor and the state of the tools after that.
pub open spec fn program_after_relocated(p: ProgramParts, relocated: ReplyView, st: ToolState) -> (
    ReplyView,
    ToolState,
) {
    match relocated {
        Err(message) => (Err("Relocated code assembly failed: "@ + message), st),
        Ok(binary) => if binary.len() > MAX_RELOCATED_SIZE {
            (Err(relocated_size_message(binary.len())), st)
        } else {
            let (main, after) = spec_run(
                st,
                RequestView::AssembleWithFiles(main_code_text(p), data_files_view(p, binary)),
            );
            (
                match main {
                    Ok(loader) => Ok(prg_file(loader)),
                    Err(message) => Err("Assembly failed: "@ + message),
                },
                after,
            )
        },
    }
}

/// What the program is in tool state `st`, and the state after it: the
/// relocated decompressor is assembled first and must fit into the stack
/// page; then the loader is assembled, and the program is the load address
/// and the loader.
pub open spec fn program(p: ProgramParts, st: ToolState) -> (ReplyView, ToolState) {
    let (relocated, after) = spec_assemble(st, relocated_text(p.block9));
    program_after_relocated(p, relocated, after)
}

impl MakePRGAsm {
    /// A generator for the given streams.
    ///
    /// Fails if a register block of an interface adapter is not 20 bytes
    /// long.
    pub fn new(
        color_lzsa: Vec<u8>,
        vic_lzsa: Vec<u8>,
        sid_lzsa: Vec<u8>,
        cia1_bin: Vec<u8>,
        cia2_bin: Vec<u8>,
        zp_lzsa: Vec<u8>,
        ram_lzsa: Vec<u8>,
        block9_addr: u16,
        f8_ff_data: [u8; 8],
        config: &Config,
    ) -> (r: Result<Self, String>)
        ensures
            cia1_bin@.len() != 20 ==> (r matches Err(m) && m@ == cia_size_message(
                1,
                cia1_bin@.len(),
            )),
            cia1_bin@.len() == 20 && cia2_bin@.len() != 20 ==> (r matches Err(m) && m@
                == cia_size_message(2, cia2_bin@.len())),
            cia1_bin@.len() == 20 && cia2_bin@.len() == 20 ==> (r matches Ok(g) && g@ == (
            ProgramParts {
                color: color_lzsa@,
                vic: vic_lzsa@,
                sid: sid_lzsa@,
                cia1: cia1_bin@,
                cia2: cia2_bin@,
                zp: zp_lzsa@,
                ram: ram_lzsa@,
                block9: block9_addr,
                work_path: config.work_path@,
            })),
    {
        if cia1_bin.len() != 20 {
            let mut m = String::from_str("CIA");
            m.append(decimal(1).as_str());
            m.append(" file must be 20 bytes, got ");
            m.append(decimal(cia1_bin.len()).as_str());
            return Err(m);
        }
        if cia2_bin.len() != 20 {
            let mut m = String::from_str("CIA");
            m.append(decimal(2).as_str());
            m.append(" file must be 20 bytes, got ");
            m.append(decimal(cia2_bin.len()).as_str());
            return Err(m);
        }
        Ok(
            MakePRGAsm {
                color_lzsa,
                vic_lzsa,
                sid_lzsa,
                cia1_bin,
                cia2_bin,
                zp_lzsa,
                ram_lzsa,
                block9_addr,
                f8_ff_data,
                config: Config { work_path: config.work_path.clone() },
            },
        )
    }

    /// The files that the source of the loader refers to: the streams, and
    /// the assembled relocated decompressor.
    pub fn write_data_files(&self, relocated_binary: &[u8]) -> (r: Vec<DataFile>)
        ensures
            file_list_view(r@) == data_files_view(self@, relocated_binary@),
    {
        let work = self.config.work_str();
        let mut files: Vec<DataFile> = Vec::new();
        files.push(data_file(work, "color.lzsa", self.color_lzsa.as_slice()));
        files.push(data_file(work, "vic.lzsa", self.vic_lzsa.as_slice()));
        files.push(data_file(work, "sid.lzsa", self.sid_lzsa.as_slice()));
        files.push(data_file(work, "cia1.bin", self.cia1_bin.as_slice()));
        files.push(data_file(work, "cia2.bin", self.cia2_bin.as_slice()));
        files.push(data_file(work, "zp.lzsa", self.zp_lzsa.as_slice()));
        files.push(data_file(work, "relocated.bin", relocated_binary));
        files.push(data_file(work, "ram.lzsa", self.ram_lzsa.as_slice()));
        assert(file_list_view(files@) =~= data_files_view(self@, relocated_binary@));
        files
    }

    /// Builds the program.
    pub fn generate_prg(&self, tools: &mut Toolchain) -> (r: Result<Vec<u8>, String>)
        ensures
            (reply_view(r), final(tools)@) == program(self@, old(tools)@),
    {
        let relocated_binary = match self.assemble_relocated_code(tools) {
            Ok(binary) => binary,
            Err(e) => {
                return Err(e);
            },
        };
        if relocated_binary.len() > MAX_RELOCATED_SIZE {
            let mut m = String::from_str("Relocated code too large: ");
            m.append(decimal(relocated_binary.len()).as_str());
            m.append(" bytes (max 256)");
            return Err(m);
        }
        let files = self.write_data_files(relocated_binary.as_slice());
        let main_asm = self.generate_main_code_asm6502();
        self.assemble_with_asm6502(tools, main_asm, files)
    }

    /// Assembles the loader to a program file.
    pub fn assemble_with_asm6502(
        &self,
        tools: &mut Toolchain,
        asm_source: String,
        files: Vec<DataFile>,
    ) -> (r: Result<Vec<u8>, String>)
        ensures
            final(tools)@ == spec_run(
                old(tools)@,
                RequestView::AssembleWithFiles(asm_source@, file_list_view(files@)),
            ).1,
            reply_view(r) == match spec_run(
                old(tools)@,
                RequestView::AssembleWithFiles(asm_source@, file_list_view(files@)),
            ).0 {
                Ok(loader) => Ok(prg_file(loader)),
                Err(message) => Err("Assembly failed: "@ + message),
            },
    {
        match tools.run(ToolRequest::AssembleWithFiles(asm_source, files)) {
            Ok(binary) => {
                let mut prg: Vec<u8> = Vec::new();
                prg.push(0x01);
                prg.push(0x08);
                crate::bytes::append_all(&mut prg, binary.as_slice());
                assert(prg@ =~= prg_file(binary@));
                Ok(prg)
            },
            Err(message) => Err(String::from_str("Assembly failed: ").concat(message.as_str())),
        }
    }

    /// Assembles the relocated decompressor.
    pub fn assemble_relocated_code(&self, tools: &mut Toolchain) -> (r: Result<Vec<u8>, String>)
        ensures
            final(tools)@ == spec_assemble(old(tools)@, relocated_text(self@.block9)).1,
            reply_view(r) == match spec_assemble(old(tools)@, relocated_text(self@.block9)).0 {
                Ok(binary) => Ok(binary),
                Err(message) => Err("Relocated code assembly failed: "@ + message),
            },
    {
        let asm_source = self.generate_relocated_decompressor();
        let mut assembler = Assembler6502Wrapper::new();
        match assembler.assemble_bytes(tools, asm_source.as_str()) {
            Ok(binary) => Ok(binary),
            Err(crate::asm_wrapper::AsmError::Asm(message)) => Err(
                String::from_str("Relocated code assembly failed: ").concat(message.as_str()),
            ),
        }
    }

    /// The source of the loader.
    pub fn generate_main_code_asm6502(&self) -> (r: String)
        ensures
            r@ == main_code_text(self@),
    {
        let work = self.config.work_str();
        let work_path = forward_slashes(work);
        let mut s = String::from_str(MAIN_0);
        s.append(work_path.as_str());
        s.append(MAIN_1);
        s.append(work_path.as_str());
        s.append(MAIN_2);
        s.append(work_path.as_str());
        s.append(MAIN_3);
        s.append(work_path.as_str());
        s.append(MAIN_4);
        s.append(work_path.as_str());
        s.append(MAIN_5);
        s.append(work_path.as_str());
        s.append(MAIN_6);
        s.append(work_path.as_str());
        s.append(MAIN_7);
        s.append(work_path.as_str());
        s.append(MAIN_8);
        s
    }

    /// The source of the relocated decompressor.
    pub fn generate_relocated_decompressor(&self) -> (r: String)
        ensures
            r@ == relocated_text(self@.block9),
    {
        let mut s = String::from_str(RELOCATED_0);
        s.append(hex4(self.block9_addr).as_str());
        s.append(RELOCATED_1);
        s
    }
}

} // verus!
