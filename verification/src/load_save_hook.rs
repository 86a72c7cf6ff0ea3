//! Load and save from the cartridge.
//!
//! The load and save vectors of the machine are pointed at a trampoline in
//! RAM. The trampoline copies the file name aside, maps the cartridge in and
//! calls the handler in the high window, which looks the name up in the
//! directory and copies the file from its banks.
//!
//! The handler is 6502 code of which this module generates the source. How
//! it compares a name with the names of the directory is stated here once
//! more, as `matches_from`, with `pattern_matches` and `find_file` to compute
//! it: which file a pattern with `*`, `?` or a space loads.

use vstd::prelude::*;
use vstd::string::*;
use crate::asm_wrapper::assemble_to_bytes;
use crate::bytes::{copy_range, overlay, write_bytes};
use crate::text::{decimal, decimal_chars, hex4, hex4_chars};
use crate::toolchain::{reply_view, spec_assemble, ReplyView, ToolState, Toolchain};

verus! {

/// Source of the load/save trampoline, part 1 of 3.
pub const TRAMPOLINE_0: &'static str = r#"*=$"#;

/// Source of the load/save trampoline, part 2 of 3.
pub const TRAMPOLINE_1: &'static str = r#"

load_trampoline:
    STA $93
    SEI
    LDA $01
    STA restore_memmap+1

    ; Copy filename to temp area
    LDY $B7
    BEQ no_filename
    DEY
copy_filename_loop:
    LDA ($BB),Y
    STA $"#;

/// Source of the load/save trampoline, part 3 of 3.
pub const TRAMPOLINE_2: &'static str = r#",Y
    DEY
    BPL copy_filename_loop
no_filename:

    LDA #$37
    STA $01
    LDX #$00
    LDY #$07
    JSR set_bank
    JSR $A600

    STX $AE
    STY $AF
    PHA
    PHP
    LDA #$04
    STA $DE02
    LDA #$37
    STA $01
    PLP
    PLA
    LDX $AE
    LDY $AF
    CLI
    RTS

save_trampoline:
    CLC
    RTS

set_bank:
    STX $DE00
    STY $DE02
    RTS

copy_data:
    JSR set_bank
    LDA #$33
    STA $01

copy_loop:
    LDA $A3
    CMP $90
    BNE not_done
    LDA $A4
    CMP $91
    BEQ copy_done

not_done:
    LDY #$00
    LDA ($A3),Y
    STA ($AE),Y
    INC $A3
    BNE no_carry_src
    INC $A4

    ; Check if we've reached $A000 (bank boundary)
    LDA $A4
    CMP #$A0
    BCS bank_boundary_reached

no_carry_src:
    INC $AE
    BNE no_carry_dst
    INC $AF

no_carry_dst:
    JMP copy_loop

bank_boundary_reached:
    ; Increment dest pointer for the last byte we just copied
    INC $AE
    BNE bank_boundary_update
    INC $AF

bank_boundary_update:
    ; Update $90/$91 to actual end address ($A3/$A4)
    ; so ROMH code knows we stopped at bank boundary
    LDA $A3
    STA $90
    LDA $A4
    STA $91

copy_done:
    LDA #$37
    STA $01
    LDX #$00
    LDY #$07
    JSR set_bank

restore_memmap:
    RTS
"#;

/// Source of the load/save handler, part 1 of 5.
pub const HANDLER_0: &'static str = r#"*=$A600

; Metadata format @ $B000 (16 bytes per entry):
;   +0: Filename pointer (2 bytes)
;   +2: Bank list (8 bytes, $00 = end)
;   +10: Start offset (2 bytes)
;   +12: File length (2 bytes)
;   +14: Load address (2 bytes)

load_handler:
    LDA $DD0D
    LDA $DC0D

    LDA #$00
    STA $A3
    STA $A4
    LDA #$B0
    STA $A4

search_loop:
    LDY #$00
    LDA ($A3),Y
    STA $90
    INY
    LDA ($A3),Y
    STA $91
    ORA $90
    BNE metadata_not_empty
    JMP file_not_found
metadata_not_empty:

    LDX $B7
    BNE check_filename
    JMP filename_match
check_filename:
    ; Null-terminate the filename copy
    LDA #$00
    STA $"#;

/// Source of the load/save handler, part 2 of 5.
pub const HANDLER_1: &'static str = r#",X

    ; Wildcards: * = match all, ? = match one char
    ; Space matches space or end-of-filename (simulates disk padding)

    LDY #$00
compare_filename_loop:
    CPY $B7
    BEQ pattern_exhausted

    LDA $"#;

/// Source of the load/save handler, part 3 of 5.
pub const HANDLER_2: &'static str = r#",Y

    CMP #$2A
    BEQ filename_match

    CMP #$3F
    BEQ wildcard_question

    CMP #$20
    BEQ space_in_pattern

    ; Case-insensitive: convert PETSCII lowercase to uppercase
    CMP #$C1
    BCC check_ascii_lower
    CMP #$DB
    BCS check_ascii_lower
    SEC
    SBC #$80
    JMP compare_chars

check_ascii_lower:
    CMP #$61
    BCC compare_chars
    CMP #$7B
    BCS compare_chars
    SEC
    SBC #$20

compare_chars:
    CMP ($90),Y
    BEQ char_matches
    JMP next_entry

space_in_pattern:
    LDA ($90),Y
    BEQ space_matches_end
    CMP #$20
    BEQ char_matches
    JMP next_entry

space_matches_end:
check_remaining_spaces:
    INY
    CPY $B7
    BEQ filename_match
    LDA $"#;

/// Source of the load/save handler, part 4 of 5.
pub const HANDLER_3: &'static str = r#",Y
    CMP #$20
    BEQ check_remaining_spaces
    CMP #$2A
    BEQ filename_match
    CMP #$3F
    BEQ check_remaining_spaces
    JMP next_entry

wildcard_question:
    LDA ($90),Y
    BNE char_matches
    JMP next_entry

char_matches:
    INY
    JMP compare_filename_loop

pattern_exhausted:
    JMP filename_match

filename_match:
    LDA $A3
    STA $A7
    LDA $A4
    STA $A8

    ; SA=0: use file address, SA=1: use $C3/$C4
    LDA $93
    BEQ use_file_addr

    LDA $C3
    STA $AE
    LDA $C4
    STA $AF
    JMP got_dest_addr

use_file_addr:
    LDY #$0E
    LDA ($A7),Y
    STA $AE
    INY
    LDA ($A7),Y
    STA $AF

got_dest_addr:
    LDY #$0C
    LDA ($A7),Y
    STA $93
    INY
    LDA ($A7),Y
    STA $94

    LDY #$0A
    LDA ($A7),Y
    STA $A5
    INY
    LDA ($A7),Y
    STA $A6

    LDY #$02

load_bank_loop:
    LDA ($A7),Y
    BEQ load_complete

    TAX
    STY $92

    CPY #$02
    BNE not_first_bank

    LDA $A5
    CLC
    ADC #$00
    STA $A3
    LDA $A6
    ADC #$80
    STA $A4
    JMP calc_end_addr

not_first_bank:
    LDA #$00
    STA $A3
    LDA #$80
    STA $A4

calc_end_addr:
    ; end = src + remaining
    LDA $A3
    CLC
    ADC $93
    STA $90
    LDA $A4
    ADC $94
    STA $91

    ; clamp end to bank boundary
    LDA $91
    CMP #$A0
    BCC end_ok
    BNE clamp_end
    LDA $90
    BEQ end_ok
clamp_end:
    LDA #$00
    STA $90
    LDA #$A0
    STA $91
end_ok:

do_copy:
    LDA $A3
    STA $95
    LDA $A4
    STA $96

    LDY #$07
    JSR $"#;

/// Source of the load/save handler, part 5 of 5.
pub const HANDLER_4: &'static str = r#"

    LDA $90
    SEC
    SBC $95
    STA $A3
    LDA $91
    SBC $96
    STA $A4

    LDA $93
    SEC
    SBC $A3
    STA $93
    LDA $94
    SBC $A4
    STA $94

    LDA $93
    ORA $94
    BEQ load_complete

    LDY $92
    INY
    CPY #$0A
    BCS load_complete
    JMP load_bank_loop

load_complete:
    LDA #$00
    STA $90
    CLC
    LDX $AE
    LDY $AF
    RTS

next_entry:
    LDA $A3
    CLC
    ADC #$10
    STA $A3
    BCC no_carry
    INC $A4

no_carry:
    LDA $A4
    CMP #$B8
    BCS file_not_found
    JMP search_loop

file_not_found:
    SEC
    LDX #$00
    LDY #$00
    RTS
"#;

/// Address of the load vector.
pub const LOAD_VECTOR: usize = 0x0330;

/// Address of the save vector.
pub const SAVE_VECTOR: usize = 0x0332;

/// Address at which the handler runs.
pub const ROMH_LOAD_SAVE_CODE: u16 = 0xA600;

/// Address at which the directory is read.
pub const METADATA_ADDRESS: u16 = 0xB000;

/// Address at which the file names are read.
pub const FILENAMES_ADDRESS: u16 = 0xB800;

/// Place of the trampoline in the stack page.
pub const TRAMPOLINE_PAGE1: u16 = 0x0100;

/// Place of the trampoline behind the vectors.
pub const TRAMPOLINE_PAGE3: u16 = 0x0334;

/// Place of the trampoline where none is chosen.
pub const DEFAULT_TRAMPOLINE_ADDR: u16 = 0x0100;

/// Lowest stack pointer with which the trampoline is safe in the stack page.
pub const SAFE_STACK_POINTER: u8 = 242;

/// `base + offset` as a 16-bit address, wrapping around.
pub open spec fn address_at(base: u16, offset: int) -> u16 {
    ((base + offset) % 65536) as u16
}

/// The routine that selects a bank starts at `i`: `STX $DE00; STY $DE02`.
pub open spec fn is_set_bank_at(bytes: Seq<u8>, i: int) -> bool {
    &&& 0 <= i
    &&& i + 5 < bytes.len()
    &&& bytes[i] == 0x8E
    &&& bytes[i + 1] == 0x00
    &&& bytes[i + 2] == 0xDE
    &&& bytes[i + 3] == 0x8C
    &&& bytes[i + 4] == 0x02
    &&& bytes[i + 5] == 0xDE
}

/// `i` is the first place at which the routine that selects a bank starts.
pub open spec fn is_first_set_bank(bytes: Seq<u8>, i: int) -> bool {
    &&& is_set_bank_at(bytes, i)
    &&& forall|j: int| 0 <= j < i ==> !is_set_bank_at(bytes, j)
}

/// The save routine starts at `i`: `CLC; RTS`.
pub open spec fn is_save_at(bytes: Seq<u8>, i: int) -> bool {
    &&& 0 <= i
    &&& i + 1 < bytes.len()
    &&& bytes[i] == 0x18
    &&& bytes[i + 1] == 0x60
}

/// `i` is the last place below `limit` at which the save routine starts.
pub open spec fn is_last_save_before(bytes: Seq<u8>, limit: int, i: int) -> bool {
    &&& is_save_at(bytes, i)
    &&& i < limit
    &&& forall|j: int| i < j < limit ==> !is_save_at(bytes, j)
}

/// The addresses of the routines in a trampoline placed at `base`.
pub struct RoutineAddresses {
    pub set_bank: u16,
    pub copy_data: u16,
    pub save_trampoline: u16,
}

/// The routines that start at `set_bank` and `save` in a trampoline at
/// `base`; the copy routine lies 7 bytes behind the one that selects a bank.
pub open spec fn routines_at(base: u16, set_bank: int, save: int) -> RoutineAddresses {
    RoutineAddresses {
        set_bank: address_at(base, set_bank),
        copy_data: address_at(address_at(base, set_bank), 7),
        save_trampoline: address_at(base, save),
    }
}

/// `found` are the addresses of the routines in the trampoline `bytes` at
/// `base`: of the first routine that selects a bank and of the last save
/// routine in front of it. None of them is address 0.
pub open spec fn are_routines(bytes: Seq<u8>, base: u16, found: RoutineAddresses) -> bool {
    exists|i: int, s: int|
        {
            &&& #[trigger] is_first_set_bank(bytes, i)
            &&& #[trigger] is_last_save_before(bytes, i, s)
            &&& found == routines_at(base, i, s)
            &&& found.set_bank != 0
            &&& found.copy_data != 0
            &&& found.save_trampoline != 0
        }
}

/// The trampoline has routines with addresses.
pub open spec fn has_routines(bytes: Seq<u8>, base: u16) -> bool {
    exists|found: RoutineAddresses| are_routines(bytes, base, found)
}

/// The message for a trampoline whose size changes from pass to pass.
pub open spec fn unstable_message(second: nat, third: nat) -> Seq<char> {
    "Code size unstable: "@ + decimal_chars(second) + " vs "@ + decimal_chars(third)
}

/// The message for a trampoline in which a routine was not found.
pub open spec fn not_found_message() -> Seq<char> {
    "Failed to find routine addresses in assembled code"@
}

/// The source of the trampoline at `base` that keeps the file name at
/// `temp_addr`.
pub open spec fn trampoline_text(base: u16, temp_addr: u16) -> Seq<char> {
    TRAMPOLINE_0@ + hex4_chars(base) + TRAMPOLINE_1@ + hex4_chars(temp_addr) + TRAMPOLINE_2@
}

/// The source of the handler that finds the file name at `temp_filename` and
/// calls the copy routine at `copy_data`.
pub open spec fn handler_text(temp_filename: u16, copy_data: u16) -> Seq<char> {
    HANDLER_0@ + hex4_chars(temp_filename) + HANDLER_1@ + hex4_chars(temp_filename) + HANDLER_2@
        + hex4_chars(temp_filename) + HANDLER_3@ + hex4_chars(copy_data) + HANDLER_4@
}

/// The trampoline that the passes settle on, with the address of the file
/// name that it was assembled for; or the message of the pass that failed.
///
/// The first pass takes the file name to lie `$F0` bytes behind the start. The
/// second places it behind the code of the first. If that changes the size
/// of the code, a third places it behind the code of the second and must
/// give code of the same size.
pub open spec fn settled_trampoline(base: u16, st: ToolState) -> (
    Result<(Seq<u8>, u16), Seq<char>>,
    ToolState,
) {
    let (first, st1) = spec_assemble(st, trampoline_text(base, address_at(base, 0xF0)));
    match first {
        Err(message) => (Err(message), st1),
        Ok(first_bytes) => {
            let temp = address_at(base, first_bytes.len() as int);
            let (second, st2) = spec_assemble(st1, trampoline_text(base, temp));
            match second {
                Err(message) => (Err(message), st2),
                Ok(bytes) => if bytes.len() == first_bytes.len() {
                    (Ok((bytes, temp)), st2)
                } else {
                    let retry_temp = address_at(base, bytes.len() as int);
                    let (third, st3) = spec_assemble(st2, trampoline_text(base, retry_temp));
                    match third {
                        Err(message) => (Err(message), st3),
                        Ok(retry_bytes) => if retry_bytes.len() != bytes.len() {
                            (Err(unstable_message(bytes.len(), retry_bytes.len())), st3)
                        } else {
                            (Ok((retry_bytes, retry_temp)), st3)
                        },
                    }
                },
            }
        },
    }
}

/// Manages the hooking of load and save.
pub struct LoadSaveHook {
    stack_pointer: u8,
    has_files: bool,
    trampoline_address: u16,
    set_bank_addr: u16,
    copy_data_addr: u16,
    save_trampoline_addr: u16,
    temp_filename_addr: u16,
    trampoline_binary: Vec<u8>,
}

/// A hook as a spec value.
pub struct HookView {
    pub stack_pointer: u8,
    pub has_files: bool,
    pub trampoline_address: u16,
    pub routines: RoutineAddresses,
    pub temp_filename_addr: u16,
    pub trampoline_binary: Seq<u8>,
}

impl View for LoadSaveHook {
    type V = HookView;

    closed spec fn view(&self) -> HookView {
        HookView {
            stack_pointer: self.stack_pointer,
            has_files: self.has_files,
            trampoline_address: self.trampoline_address,
            routines: RoutineAddresses {
                set_bank: self.set_bank_addr,
                copy_data: self.copy_data_addr,
                save_trampoline: self.save_trampoline_addr,
            },
            temp_filename_addr: self.temp_filename_addr,
            trampoline_binary: self.trampoline_binary@,
        }
    }
}

/// The hook after its trampoline was built in tool state `st`, the
/// trampoline or the message, and the tool state after it.
#[verifier::opaque]
pub open spec fn built_trampoline(hook: HookView, st: ToolState) -> (HookView, ReplyView, ToolState) {
    if !hook.has_files {
        (hook, Ok(Seq::empty()), st)
    } else {
        let (settled, after) = settled_trampoline(hook.trampoline_address, st);
        match settled {
            Err(message) => (hook, Err(message), after),
            Ok((bytes, temp)) => if has_routines(bytes, hook.trampoline_address) {
                (
                    HookView {
                        routines: choose|found: RoutineAddresses|
                            are_routines(bytes, hook.trampoline_address, found),
                        temp_filename_addr: temp,
                        trampoline_binary: bytes,
                        ..hook
                    },
                    Ok(bytes),
                    after,
                )
            } else {
                (HookView { temp_filename_addr: temp, ..hook }, Err(not_found_message()), after)
            },
        }
    }
}

/// The load vector pointing at `base` and the save vector pointing at
/// `save`, as they lie in RAM.
pub open spec fn vector_bytes(base: u16, save: u16) -> Seq<u8> {
    seq![(base % 256) as u8, (base / 256) as u8, (save % 256) as u8, (save / 256) as u8]
}

/// `ram` with the trampoline `code` at `base`, the load vector pointing at
/// the trampoline and the save vector at `save`.
pub open spec fn hooked_ram(ram: Seq<u8>, base: u16, code: Seq<u8>, save: u16) -> Seq<u8> {
    overlay(overlay(ram, base as int, code), LOAD_VECTOR as int, vector_bytes(base, save))
}

/// Whether hooking succeeds, given the trampoline that was built or the
/// message: it fails with that message, or if the trampoline does not fit
/// into RAM at its address.
pub open spec fn hook_result(hook: HookView, built: ReplyView) -> Result<(), Seq<char>> {
    match built {
        Err(message) => Err(message),
        Ok(code) => if hook.has_files && hook.trampoline_address + code.len() > 65536 {
            Err("Trampoline code exceeds RAM bounds"@)
        } else {
            Ok(())
        },
    }
}

/// RAM after hooking: with the trampoline and the vectors where hooking
/// succeeds and there are files, else as it was.
pub open spec fn ram_after_hook(ram: Seq<u8>, hook: HookView, built: ReplyView, save: u16) -> Seq<
    u8,
> {
    match built {
        Ok(code) => if hook.has_files && hook.trampoline_address + code.len() <= 65536 {
            hooked_ram(ram, hook.trampoline_address, code, save)
        } else {
            ram
        },
        Err(_) => ram,
    }
}

/// The view of a result without a value.
pub open spec fn unit_view(r: Result<(), String>) -> Result<(), Seq<char>> {
    match r {
        Ok(()) => Ok(()),
        Err(message) => Err(message@),
    }
}

/// At most one set of addresses belongs to a trampoline.
pub proof fn lemma_routines_unique(
    bytes: Seq<u8>,
    base: u16,
    a: RoutineAddresses,
    b: RoutineAddresses,
)
    requires
        are_routines(bytes, base, a),
        are_routines(bytes, base, b),
    ensures
        a == b,
{
    let (i, s) = choose|i: int, s: int|
        {
            &&& #[trigger] is_first_set_bank(bytes, i)
            &&& #[trigger] is_last_save_before(bytes, i, s)
            &&& a == routines_at(base, i, s)
        };
    let (j, t) = choose|j: int, t: int|
        {
            &&& #[trigger] is_first_set_bank(bytes, j)
            &&& #[trigger] is_last_save_before(bytes, j, t)
            &&& b == routines_at(base, j, t)
        };
    assert(i == j) by {
        if i < j {
            assert(!is_set_bank_at(bytes, i));
        }
        if j < i {
            assert(!is_set_bank_at(bytes, j));
        }
    }
    assert(s == t) by {
        if s < t {
            assert(!is_save_at(bytes, t));
        }
        if t < s {
            assert(!is_save_at(bytes, s));
        }
    }
}

impl LoadSaveHook {
    /// A hook for a machine with the given stack pointer. The trampoline is
    /// placed at `trampoline_address`, or behind the vectors where none is
    /// given.
    pub fn new(stack_pointer: u8, has_files: bool, trampoline_address: Option<u16>) -> (r: Self)
        ensures
            r@ == (HookView {
                stack_pointer,
                has_files,
                trampoline_address: match trampoline_address {
                    Some(addr) => addr,
                    None => TRAMPOLINE_PAGE3,
                },
                routines: RoutineAddresses { set_bank: 0, copy_data: 0, save_trampoline: 0 },
                temp_filename_addr: 0,
                trampoline_binary: Seq::empty(),
            }),
    {
        let addr = match trampoline_address {
            Some(addr) => addr,
            None => TRAMPOLINE_PAGE3,
        };
        LoadSaveHook {
            stack_pointer,
            has_files,
            trampoline_address: addr,
            set_bank_addr: 0,
            copy_data_addr: 0,
            save_trampoline_addr: 0,
            temp_filename_addr: 0,
            trampoline_binary: Vec::new(),
        }
    }

    /// The place for the trampoline that suits a stack pointer: the stack
    /// page where the stack pointer is at least 242, so that the stack cannot
    /// grow into it, else behind the vectors.
    pub fn auto_trampoline_address(stack_pointer: u8) -> (r: u16)
        ensures
            r == if stack_pointer >= SAFE_STACK_POINTER {
                TRAMPOLINE_PAGE1
            } else {
                TRAMPOLINE_PAGE3
            },
    {
        if stack_pointer >= SAFE_STACK_POINTER {
            TRAMPOLINE_PAGE1
        } else {
            TRAMPOLINE_PAGE3
        }
    }

    /// Address of the trampoline.
    pub fn get_trampoline_address(&self) -> (r: u16)
        ensures
            r == self@.trampoline_address,
    {
        self.trampoline_address
    }

    /// The source of the trampoline that keeps the file name at `temp_addr`.
    pub fn generate_trampoline_asm(&self, temp_addr: u16) -> (r: String)
        ensures
            r@ == trampoline_text(self@.trampoline_address, temp_addr),
    {
        let mut s = String::from_str(TRAMPOLINE_0);
        s.append(hex4(self.trampoline_address).as_str());
        s.append(TRAMPOLINE_1);
        s.append(hex4(temp_addr).as_str());
        s.append(TRAMPOLINE_2);
        s
    }

    /// `base + offset` as a 16-bit address, wrapping around.
    fn wrapped(base: u16, offset: usize) -> (r: u16)
        ensures
            r == address_at(base, offset as int % 65536),
            r == address_at(base, offset as int),
    {
        ((base as usize + offset % 65536) % 65536) as u16
    }

    /// Assembles the trampoline until its size is settled.
    fn settle_trampoline(&self, tools: &mut Toolchain) -> (r: Result<(Vec<u8>, u16), String>)
        ensures
            final(tools)@ == settled_trampoline(self@.trampoline_address, old(tools)@).1,
            match settled_trampoline(self@.trampoline_address, old(tools)@).0 {
                Ok((bytes, temp)) => r matches Ok(found) && found.0@ == bytes && found.1 == temp,
                Err(message) => r matches Err(m) && m@ == message,
            },
    {
        let first_pass_asm = self.generate_trampoline_asm(
            Self::wrapped(self.trampoline_address, 0xF0),
        );
        let first_pass_bytes = match assemble_to_bytes(tools, first_pass_asm.as_str()) {
            Ok(bytes) => bytes,
            Err(e) => {
                return Err(e);
            },
        };
        let temp = Self::wrapped(self.trampoline_address, first_pass_bytes.len());
        let final_asm = self.generate_trampoline_asm(temp);
        let bytes = match assemble_to_bytes(tools, final_asm.as_str()) {
            Ok(bytes) => bytes,
            Err(e) => {
                return Err(e);
            },
        };
        if bytes.len() != first_pass_bytes.len() {
            let retry_temp = Self::wrapped(self.trampoline_address, bytes.len());
            let retry_asm = self.generate_trampoline_asm(retry_temp);
            let retry_bytes = match assemble_to_bytes(tools, retry_asm.as_str()) {
                Ok(bytes) => bytes,
                Err(e) => {
                    return Err(e);
                },
            };
            if retry_bytes.len() != bytes.len() {
                let mut m = String::from_str("Code size unstable: ");
                m.append(decimal(bytes.len()).as_str());
                m.append(" vs ");
                m.append(decimal(retry_bytes.len()).as_str());
                return Err(m);
            }
            Ok((retry_bytes, retry_temp))
        } else {
            Ok((bytes, temp))
        }
    }

    /// Builds the trampoline and finds the routines in it. Without files
    /// there is no trampoline.
    pub fn generate_trampoline_binary(&mut self, tools: &mut Toolchain) -> (r: Result<
        Vec<u8>,
        String,
    >)
        ensures
            (final(self)@, reply_view(r), final(tools)@) == built_trampoline(
                old(self)@,
                old(tools)@,
            ),
            final(self)@.has_files == old(self)@.has_files,
            final(self)@.trampoline_address == old(self)@.trampoline_address,
            final(self)@.stack_pointer == old(self)@.stack_pointer,
    {
        reveal(built_trampoline);
        if !self.has_files {
            return Ok(Vec::new());
        }
        let (final_bytes, temp) = match self.settle_trampoline(tools) {
            Ok(found) => found,
            Err(e) => {
                return Err(e);
            },
        };
        self.temp_filename_addr = temp;
        match self.find_addresses(final_bytes.as_slice()) {
            Ok(()) => {},
            Err(e) => {
                return Err(e);
            },
        }
        proof {
            let chosen = choose|found: RoutineAddresses|
                are_routines(final_bytes@, self.trampoline_address, found);
            lemma_routines_unique(final_bytes@, self.trampoline_address, chosen, self@.routines);
        }
        let copy = copy_range(final_bytes.as_slice(), 0, final_bytes.len());
        assert(copy@ =~= final_bytes@);
        self.trampoline_binary = copy;
        Ok(final_bytes)
    }

    /// Finds the routines in the assembled trampoline.
    ///
    /// Succeeds exactly if the routine that selects a bank is there, a save
    /// routine lies in front of it, and none of the addresses is 0. The hook
    /// then holds the addresses; else it is left as it was.
    pub fn find_addresses(&mut self, bytes: &[u8]) -> (r: Result<(), String>)
        ensures
            has_routines(bytes@, old(self)@.trampoline_address) ==> r is Ok && are_routines(
                bytes@,
                old(self)@.trampoline_address,
                final(self)@.routines,
            ) && final(self)@ == (HookView { routines: final(self)@.routines, ..old(self)@ }),
            !has_routines(bytes@, old(self)@.trampoline_address) ==> (r matches Err(m) && m@
                == not_found_message()) && final(self)@ == old(self)@,
    {
        let base = self.trampoline_address;
        let mut set_bank: Option<usize> = None;
        let mut i: usize = 0;
        while set_bank.is_none() && bytes.len() > 5 && i < bytes.len() - 5
            invariant
                forall|j: int| 0 <= j < i ==> !is_set_bank_at(bytes@, j),
                set_bank matches Some(k) ==> is_first_set_bank(bytes@, k as int),
            decreases
                    if set_bank is Some {
                        0
                    } else {
                        bytes@.len() - i
                    },
        {
            if bytes[i] == 0x8E && bytes[i + 1] == 0x00 && bytes[i + 2] == 0xDE && bytes[i + 3]
                == 0x8C && bytes[i + 4] == 0x02 && bytes[i + 5] == 0xDE {
                set_bank = Some(i);
            } else {
                i += 1;
            }
        }
        let set_bank_offset = match set_bank {
            Some(k) => k,
            None => {
                proof {
                    assert forall|found: RoutineAddresses| !are_routines(bytes@, base, found) by {
                        assert forall|k: int, s: int| !(#[trigger] is_first_set_bank(bytes@, k)
                            && #[trigger] is_last_save_before(bytes@, k, s)) by {
                            if is_first_set_bank(bytes@, k) {
                                assert(!is_set_bank_at(bytes@, k));
                            }
                        }
                    }
                }
                return Err(String::from_str("Failed to find routine addresses in assembled code"));
            },
        };
        let mut save: Option<usize> = None;
        let mut i: usize = set_bank_offset;
        while save.is_none() && i > 0
            invariant
                i <= set_bank_offset,
                set_bank_offset + 5 < bytes@.len(),
                forall|j: int| i <= j < set_bank_offset ==> !is_save_at(bytes@, j),
                save matches Some(s) ==> is_last_save_before(bytes@, set_bank_offset as int, s as int),
            decreases
                    if save is Some {
                        0
                    } else {
                        i + 1
                    },
        {
            if bytes[i - 1] == 0x18 && bytes[i] == 0x60 {
                save = Some(i - 1);
            } else {
                i -= 1;
            }
        }
        let set_bank_addr = Self::wrapped(base, set_bank_offset);
        let copy_data_addr = Self::wrapped(set_bank_addr, 7);
        let save_offset = match save {
            Some(s) => s,
            None => {
                proof {
                    assert forall|found: RoutineAddresses| !are_routines(bytes@, base, found) by {
                        assert forall|k: int, s: int| !(#[trigger] is_first_set_bank(bytes@, k)
                            && #[trigger] is_last_save_before(bytes@, k, s)) by {
                            if is_first_set_bank(bytes@, k) && is_last_save_before(bytes@, k, s) {
                                if k < set_bank_offset {
                                    assert(!is_set_bank_at(bytes@, k));
                                }
                                if set_bank_offset < k {
                                    assert(!is_set_bank_at(bytes@, set_bank_offset as int));
                                }
                                assert(!is_save_at(bytes@, s));
                            }
                        }
                    }
                }
                return Err(String::from_str("Failed to find routine addresses in assembled code"));
            },
        };
        let save_trampoline_addr = Self::wrapped(base, save_offset);
        let ghost found = routines_at(base, set_bank_offset as int, save_offset as int);
        if set_bank_addr == 0 || copy_data_addr == 0 || save_trampoline_addr == 0 {
            proof {
                assert forall|other: RoutineAddresses| !are_routines(bytes@, base, other) by {
                    assert forall|k: int, s: int| !(#[trigger] is_first_set_bank(bytes@, k)
                        && #[trigger] is_last_save_before(bytes@, k, s) && other == routines_at(
                        base,
                        k,
                        s,
                    ) && other.set_bank != 0 && other.copy_data != 0 && other.save_trampoline
                        != 0) by {
                        if is_first_set_bank(bytes@, k) && is_last_save_before(bytes@, k, s) {
                            if k < set_bank_offset {
                                assert(!is_set_bank_at(bytes@, k));
                            }
                            if set_bank_offset < k {
                                assert(!is_set_bank_at(bytes@, set_bank_offset as int));
                            }
                            if s < save_offset {
                                assert(!is_save_at(bytes@, save_offset as int));
                            }
                            if save_offset < s {
                                assert(!is_save_at(bytes@, s));
                            }
                        }
                    }
                }
            }
            return Err(String::from_str("Failed to find routine addresses in assembled code"));
        }
        self.set_bank_addr = set_bank_addr;
        self.copy_data_addr = copy_data_addr;
        self.save_trampoline_addr = save_trampoline_addr;
        proof {
            assert(is_first_set_bank(bytes@, set_bank_offset as int));
            assert(is_last_save_before(bytes@, set_bank_offset as int, save_offset as int));
            assert(self@.routines == found);
            assert(are_routines(bytes@, base, found));
        }
        Ok(())
    }

    /// Builds the trampoline, writes it into `ram` and points the load and
    /// save vectors at it. Without files nothing happens.
    pub fn hook_load_and_save(&mut self, ram: &mut [u8; 65536], tools: &mut Toolchain) -> (r: Result<
        (),
        String,
    >)
        ensures
            final(self)@ == built_trampoline(old(self)@, old(tools)@).0,
            final(tools)@ == built_trampoline(old(self)@, old(tools)@).2,
            unit_view(r) == hook_result(
                old(self)@,
                built_trampoline(old(self)@, old(tools)@).1,
            ),
            final(ram)@ == ram_after_hook(
                old(ram)@,
                old(self)@,
                built_trampoline(old(self)@, old(tools)@).1,
                final(self)@.routines.save_trampoline,
            ),
    {
        if !self.has_files {
            proof {
                reveal(built_trampoline);
            }
            return Ok(());
        }
        let trampoline_code = match self.generate_trampoline_binary(tools) {
            Ok(code) => code,
            Err(e) => {
                return Err(e);
            },
        };
        let addr = self.trampoline_address as usize;
        if trampoline_code.len() > 65536 - addr {
            return Err(String::from_str("Trampoline code exceeds RAM bounds"));
        }
        write_bytes(ram, addr, trampoline_code.as_slice());
        let vectors: [u8; 4] = [
            (self.trampoline_address % 256) as u8,
            (self.trampoline_address / 256) as u8,
            (self.save_trampoline_addr % 256) as u8,
            (self.save_trampoline_addr / 256) as u8,
        ];
        assert(vectors@ =~= vector_bytes(self.trampoline_address, self.save_trampoline_addr));
        write_bytes(ram, LOAD_VECTOR, vectors.as_slice());
        Ok(())
    }

    /// The source of the handler.
    pub fn generate_romh_handler_asm(&self) -> (r: String)
        ensures
            r@ == handler_text(self@.temp_filename_addr, self@.routines.copy_data),
    {
        let copy_data_addr = hex4(self.copy_data_addr);
        let temp_filename = hex4(self.temp_filename_addr);
        let mut s = String::from_str(HANDLER_0);
        s.append(temp_filename.as_str());
        s.append(HANDLER_1);
        s.append(temp_filename.as_str());
        s.append(HANDLER_2);
        s.append(temp_filename.as_str());
        s.append(HANDLER_3);
        s.append(copy_data_addr.as_str());
        s.append(HANDLER_4);
        s
    }

    /// Assembles the handler, which runs at `$A600`. The trampoline is built
    /// first where its addresses are not known yet. Without files there is no
    /// handler.
    pub fn generate_load_save_rom_code(&mut self, tools: &mut Toolchain) -> (r: Result<
        Vec<u8>,
        String,
    >)
        ensures
            (final(self)@, reply_view(r), final(tools)@) == built_handler(old(self)@, old(tools)@),
    {
        reveal(built_handler);
        if !self.has_files {
            return Ok(Vec::new());
        }
        if self.copy_data_addr == 0 || self.temp_filename_addr == 0 {
            match self.generate_trampoline_binary(tools) {
                Ok(_) => {},
                Err(e) => {
                    return Err(e);
                },
            }
        }
        let handler_source = self.generate_romh_handler_asm();
        assemble_to_bytes(tools, handler_source.as_str())
    }

    /// Address of the copy routine in the trampoline.
    pub fn get_copy_data_addr(&self) -> (r: u16)
        ensures
            r == self@.routines.copy_data,
    {
        self.copy_data_addr
    }

    /// Address at which the trampoline keeps the file name.
    pub fn get_temp_filename_addr(&self) -> (r: u16)
        ensures
            r == self@.temp_filename_addr,
    {
        self.temp_filename_addr
    }

    /// The trampoline as it was built last.
    pub fn get_trampoline_binary(&self) -> (r: &[u8])
        ensures
            r@ == self@.trampoline_binary,
    {
        self.trampoline_binary.as_slice()
    }
}

/// The hook after its handler was built in tool state `st`, the handler or
/// the message, and the tool state after it.
#[verifier::opaque]
pub open spec fn built_handler(hook: HookView, st: ToolState) -> (HookView, ReplyView, ToolState) {
    if !hook.has_files {
        (hook, Ok(Seq::empty()), st)
    } else {
        let (ready, built, st1) = if hook.routines.copy_data == 0 || hook.temp_filename_addr == 0 {
            built_trampoline(hook, st)
        } else {
            (hook, Ok(Seq::empty()), st)
        };
        match built {
            Err(message) => (ready, Err(message), st1),
            Ok(_) => {
                let (handler, st2) = spec_assemble(
                    st1,
                    handler_text(ready.temp_filename_addr, ready.routines.copy_data),
                );
                (ready, handler, st2)
            },
        }
    }
}

} // verus!

verus! {

/// A character of a pattern as the handler compares it: a letter in either
/// of the two lower-case ranges of the machine's character set becomes the
/// upper-case letter.
pub open spec fn folded(c: u8) -> u8 {
    if 0xC1 <= c < 0xDB {
        (c - 0x80) as u8
    } else if 0x61 <= c < 0x7B {
        (c - 0x20) as u8
    } else {
        c
    }
}

/// The byte that the handler reads at `i` of a stored name: the name is
/// followed by a zero.
pub open spec fn name_at(name: Seq<u8>, i: int) -> u8 {
    if 0 <= i < name.len() {
        name[i]
    } else {
        0
    }
}

/// From `y` on the pattern holds only what matches the padding behind the
/// end of a name: spaces and question marks, up to its end or a star.
pub open spec fn only_padding(pattern: Seq<u8>, y: int) -> bool
    decreases pattern.len() - y,
{
    if y < 0 || y >= pattern.len() {
        true
    } else if pattern[y] == 0x20 || pattern[y] == 0x3F {
        only_padding(pattern, y + 1)
    } else {
        pattern[y] == 0x2A
    }
}

/// The pattern matches the stored name from `y` on, as the handler in the
/// cartridge decides it.
///
/// A star matches the rest. A question mark matches any one character. A
/// space matches a space, or the end of the name if only padding follows in
/// the pattern. Any other character matches itself, a lower-case letter its
/// upper-case letter. A pattern that is used up matches, whatever follows in
/// the name.
pub open spec fn matches_from(pattern: Seq<u8>, name: Seq<u8>, y: int) -> bool
    decreases pattern.len() - y,
{
    if y < 0 || y >= pattern.len() {
        true
    } else if pattern[y] == 0x2A {
        true
    } else if pattern[y] == 0x3F {
        name_at(name, y) != 0 && matches_from(pattern, name, y + 1)
    } else if pattern[y] == 0x20 {
        if name_at(name, y) == 0 {
            only_padding(pattern, y + 1)
        } else {
            name_at(name, y) == 0x20 && matches_from(pattern, name, y + 1)
        }
    } else {
        folded(pattern[y]) == name_at(name, y) && matches_from(pattern, name, y + 1)
    }
}

/// Entry `i` is the first of the stored names that the pattern matches.
pub open spec fn is_first_match(pattern: Seq<u8>, names: Seq<Vec<u8>>, i: int) -> bool {
    &&& 0 <= i < names.len()
    &&& matches_from(pattern, names[i]@, 0)
    &&& forall|j: int| 0 <= j < i ==> !matches_from(pattern, (#[trigger] names[j])@, 0)
}

impl LoadSaveHook {
    /// Whether the handler takes the stored name for the one that the
    /// pattern asks for. The stored name holds no zero byte.
    pub fn pattern_matches(pattern: &[u8], name: &[u8]) -> (r: bool)
        ensures
            r == matches_from(pattern@, name@, 0),
    {
        let mut y: usize = 0;
        while y < pattern.len()
            invariant
                0 <= y <= pattern@.len(),
                matches_from(pattern@, name@, 0) == matches_from(pattern@, name@, y as int),
            decreases pattern@.len() - y,
        {
            let c = pattern[y];
            let stored = if y < name.len() {
                name[y]
            } else {
                0
            };
            if c == 0x2A {
                return true;
            } else if c == 0x3F {
                if stored == 0 {
                    return false;
                }
            } else if c == 0x20 {
                if stored == 0 {
                    let mut z: usize = y + 1;
                    while z < pattern.len()
                        invariant
                            y < z <= pattern@.len(),
                            matches_from(pattern@, name@, 0) == only_padding(pattern@, z as int),
                        decreases pattern@.len() - z,
                    {
                        if pattern[z] == 0x20 || pattern[z] == 0x3F {
                            z += 1;
                        } else {
                            return pattern[z] == 0x2A;
                        }
                    }
                    return true;
                } else if stored != 0x20 {
                    return false;
                }
            } else {
                let folded = if 0xC1 <= c && c < 0xDB {
                    c - 0x80
                } else if 0x61 <= c && c < 0x7B {
                    c - 0x20
                } else {
                    c
                };
                if folded != stored {
                    return false;
                }
            }
            y += 1;
        }
        true
    }

    /// The entry of the directory that the handler loads for the pattern: the
    /// first whose name the pattern matches.
    pub fn find_file(pattern: &[u8], names: &[Vec<u8>]) -> (r: Option<usize>)
        ensures
            match r {
                Some(i) => is_first_match(pattern@, names@, i as int),
                None => forall|j: int|
                    0 <= j < names@.len() ==> !matches_from(pattern@, (#[trigger] names@[j])@, 0),
            },
    {
        let mut i: usize = 0;
        while i < names.len()
            invariant
                0 <= i <= names@.len(),
                forall|j: int| 0 <= j < i ==> !matches_from(pattern@, (#[trigger] names@[j])@, 0),
            decreases names@.len() - i,
        {
            if Self::pattern_matches(pattern, names[i].as_slice()) {
                return Some(i);
            }
            i += 1;
        }
        None
    }
}

/// A pattern that ends in a star matches every name that begins as the
/// pattern does in front of the star, where that part holds neither
/// wildcards nor spaces nor lower-case letters.
pub proof fn lemma_star_matches_prefix(pattern: Seq<u8>, name: Seq<u8>, y: int)
    requires
        0 <= y < pattern.len(),
        pattern[pattern.len() - 1] == 0x2A,
        pattern.len() - 1 <= name.len(),
        forall|i: int|
            0 <= i < pattern.len() - 1 ==> #[trigger] pattern[i] == name[i] && pattern[i] != 0x2A
                && pattern[i] != 0x3F && pattern[i] != 0x20 && folded(pattern[i]) == pattern[i],
    ensures
        matches_from(pattern, name, y),
    decreases pattern.len() - y,
{
    if y < pattern.len() - 1 {
        lemma_star_matches_prefix(pattern, name, y + 1);
        assert(pattern[y] == name[y]);
    }
}

} // verus!

verus! {

/// A question mark stands for one character: it matches any character of the
/// name, and not its end.
pub proof fn lemma_question_mark(pattern: Seq<u8>, name: Seq<u8>, y: int)
    requires
        0 <= y < pattern.len(),
        pattern[y] == 0x3F,
        forall|i: int| 0 <= i < name.len() ==> #[trigger] name[i] != 0,
    ensures
        matches_from(pattern, name, y) == (y < name.len() && matches_from(pattern, name, y + 1)),
{
}

/// A space in the pattern matches a space in the name. At the end of the name
/// it matches where only padding follows in the pattern: spaces and question
/// marks, up to the end of the pattern or a star.
pub proof fn lemma_space(pattern: Seq<u8>, name: Seq<u8>, y: int)
    requires
        0 <= y < pattern.len(),
        pattern[y] == 0x20,
        forall|i: int| 0 <= i < name.len() ==> #[trigger] name[i] != 0,
    ensures
        y < name.len() ==> matches_from(pattern, name, y) == (name[y] == 0x20 && matches_from(
            pattern,
            name,
            y + 1,
        )),
        y >= name.len() ==> matches_from(pattern, name, y) == only_padding(pattern, y + 1),
{
}

/// A pattern without star and question mark matches a name of its own length
/// exactly if the name is the pattern with its lower-case letters in upper
/// case.
pub proof fn lemma_plain_pattern(pattern: Seq<u8>, name: Seq<u8>, y: int)
    requires
        0 <= y <= pattern.len(),
        pattern.len() == name.len(),
        forall|i: int| 0 <= i < pattern.len() ==> #[trigger] pattern[i] != 0x2A && pattern[i] != 0x3F,
        forall|i: int| 0 <= i < name.len() ==> #[trigger] name[i] != 0,
    ensures
        matches_from(pattern, name, y) == (forall|i: int|
            y <= i < pattern.len() ==> folded(#[trigger] pattern[i]) == name[i]),
    decreases pattern.len() - y,
{
    if y < pattern.len() {
        lemma_plain_pattern(pattern, name, y + 1);
        assert(pattern[y] != 0x2A && pattern[y] != 0x3F);
        assert(name[y] != 0);
        if matches_from(pattern, name, y) {
            assert forall|i: int| y <= i < pattern.len() implies folded(#[trigger] pattern[i])
                == name[i] by {
                if i > y {
                    assert(matches_from(pattern, name, y + 1));
                }
            }
        } else if folded(pattern[y]) == name[y] {
            assert(!matches_from(pattern, name, y + 1));
        }
    }
}

} // verus!
