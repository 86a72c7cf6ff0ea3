//! Conversion of a snapshot to an 8 KiB-banked cartridge.
//!
//! The cartridge has low windows only. Bank 0 starts with the boot code;
//! behind it the restore routine, the relocated decompressor and the
//! compressed RAM run on through the banks. The format has no way to switch
//! the cartridge off for a while, so there are no embedded files.

use vstd::prelude::*;
use vstd::string::*;
use vstd::utf8::*;
use crate::bytes::{append_all, copy_range, repeat};
use crate::config::CrtConfig;
use crate::convert_snapshot::{
    prepare_streams, restore_streams, zero_extra_blocks, zeroed, RestoreStreams, StreamsView,
};
use crate::crt_builder::{
    bank_image, crt_file, default_name_bytes, empty_banks, lemma_default_name_in_file,
    lemma_upper_name_bytes, no_high_windows, overflow_message, upper_name, CRTBuilder,
    CartridgeType, BANK_SIZE_8K,
};
use crate::load_save_hook::unstable_message;
use crate::make_magic_desk_boot_asm::{boot_text, can_copy, pages_for, MakeMagicDeskBootAsm};
use crate::make_magic_desk_crt_asm::{
    main_code_text, relocated_text, MakeMagicDeskCRTAsm, RestoreParts,
};
use crate::parse_vsf::{parse_snapshot, ParseVSF};
use crate::text::{decimal, decimal_chars};
use crate::toolchain::{reply_view, spec_assemble, ReplyView, ToolState, Toolchain};

verus! {

/// Most banks of a cartridge.
pub const MAX_BANKS: usize = 64;

/// Fewest banks of a cartridge.
pub const MIN_BANKS: usize = 8;

/// Most bytes of code in the low windows that sizes are computed for: what
/// all banks hold together.
pub const MAX_CODE_SIZE: usize = 0x80000;

/// The assembled code of a cartridge.
#[derive(Debug)]
pub struct CartridgeCode {
    pub boot: Vec<u8>,
    pub restore: Vec<u8>,
    pub relocated: Vec<u8>,
}

/// The assembled code as spec values.
pub struct CodeView {
    pub boot: Seq<u8>,
    pub restore: Seq<u8>,
    pub relocated: Seq<u8>,
}

impl View for CartridgeCode {
    type V = CodeView;

    open spec fn view(&self) -> CodeView {
        CodeView { boot: self.boot@, restore: self.restore@, relocated: self.relocated@ }
    }
}

/// The view of code or a message.
pub open spec fn code_view(r: Result<CartridgeCode, String>) -> Result<CodeView, Seq<char>> {
    match r {
        Ok(c) => Ok(c@),
        Err(m) => Err(m@),
    }
}

/// The message for data that does not fit into RAM.
pub open spec fn ram_data_message(relocated: nat, ram: nat) -> Seq<char> {
    "Restore data does not fit into RAM: "@ + decimal_chars(relocated) + " + "@ + decimal_chars(
        ram,
    ) + " bytes (max 65536)"@
}

/// The message for code that is larger than all banks together.
pub open spec fn code_size_message(boot: nat, restore: nat) -> Seq<char> {
    "Restore code does not fit into the cartridge: "@ + decimal_chars(boot) + " + "@
        + decimal_chars(restore) + " bytes (max 524288)"@
}

/// The message for a restore routine of more pages than the trampoline can
/// copy.
pub open spec fn pages_message(size: nat) -> Seq<char> {
    "Restore code too large: "@ + decimal_chars(size) + " bytes = "@ + decimal_chars(
        pages_for(size),
    ) + " pages (max 255 pages)"@
}

/// The message for boot code whose size depends on what it copies.
pub open spec fn boot_changed_message(before: nat, after: nat) -> Seq<char> {
    "Boot code size changed between passes: "@ + decimal_chars(before) + " -> "@ + decimal_chars(
        after,
    ) + ". This is a bug - please report it."@
}

/// The message for a payload that needs more banks than a cartridge has.
pub open spec fn too_many_banks_message(required: nat) -> Seq<char> {
    "Snapshot data is too large for Magic Desk cartridge!\n\nRequired banks: "@ + decimal_chars(
        required,
    )
        + "\nMaximum banks:  64 (524288 bytes)\n\nThe snapshot is too large or doesn't compress well enough."@
}

/// Why the sizes cannot be laid out, if they cannot: the data for the top of
/// RAM must fit into RAM, and the code into the cartridge.
pub open spec fn sizes_error(relocated: nat, ram: nat, boot: nat, restore: nat) -> Option<Seq<char>> {
    if relocated + ram > 0x10000 {
        Some(ram_data_message(relocated, ram))
    } else if boot + restore > MAX_CODE_SIZE {
        Some(code_size_message(boot, restore))
    } else {
        None
    }
}

/// What the generator of the restore routine works on.
pub open spec fn restore_parts(
    s: StreamsView,
    relocated_size: usize,
    restore_code_size: usize,
    boot_code_size: usize,
) -> RestoreParts {
    RestoreParts {
        color: s.compressed.color,
        vic: s.compressed.vic,
        sid: s.compressed.sid,
        cia1: s.cia1,
        cia2: s.cia2,
        zp: s.compressed.zp,
        f8_ff: s.f8_ff,
        block9: s.block9_addr,
        relocated_size,
        ram_lzsa_size: s.compressed.ram.len() as usize,
        restore_code_size,
        extra_size: boot_code_size,
    }
}

/// One pass over the restore routine: it is assembled for the size `size` of
/// itself, where the sizes can be laid out.
pub open spec fn restore_pass(
    s: StreamsView,
    boot_size: nat,
    relocated_size: nat,
    size: nat,
    st: ToolState,
) -> (ReplyView, ToolState) {
    match sizes_error(relocated_size, s.compressed.ram.len(), boot_size, size) {
        Some(message) => (Err(message), st),
        None => spec_assemble(
            st,
            main_code_text(
                restore_parts(s, relocated_size as usize, size as usize, boot_size as usize),
            ),
        ),
    }
}

/// The restore routine that the passes settle on. The first pass is made for a
/// size of 0, the second the size of the first. If that changes the size, a
/// third is made for the size of the second and must give code of the same size.
pub open spec fn settled_restore_code(
    s: StreamsView,
    boot_size: nat,
    relocated_size: nat,
    st: ToolState,
) -> (ReplyView, ToolState) {
    let (first, st1) = restore_pass(s, boot_size, relocated_size, 0, st);
    match first {
        Err(e) => (Err(e), st1),
        Ok(pass1) => {
            let (second, st2) = restore_pass(s, boot_size, relocated_size, pass1.len(), st1);
            match second {
                Err(e) => (Err(e), st2),
                Ok(pass2) => if pass2.len() == pass1.len() {
                    (Ok(pass2), st2)
                } else {
                    let (third, st3) = restore_pass(
                        s,
                        boot_size,
                        relocated_size,
                        pass2.len(),
                        st2,
                    );
                    match third {
                        Err(e) => (Err(e), st3),
                        Ok(pass3) => if pass3.len() != pass2.len() {
                            (Err(unstable_message(pass2.len(), pass3.len())), st3)
                        } else {
                            (Ok(pass3), st3)
                        },
                    }
                },
            }
        },
    }
}

/// The code of the cartridge once the relocated decompressor is assembled:
/// the restore routine is settled, the relocated decompressor is assembled
/// once more, and the boot code for the size of the restore routine; the
/// boot code must have kept its size.
pub open spec fn code_after_relocated(
    s: StreamsView,
    boot_size: nat,
    relocated_size: nat,
    st: ToolState,
) -> (Result<CodeView, Seq<char>>, ToolState) {
    let (settled, st1) = settled_restore_code(s, boot_size, relocated_size, st);
    match settled {
        Err(e) => (Err(e), st1),
        Ok(restore) => {
            let (assembled, st2) = spec_assemble(st1, relocated_text(s.block9_addr));
            match assembled {
                Err(e) => (Err(e), st2),
                Ok(relocated) => if !can_copy(restore.len() as usize) {
                    (Err(pages_message(restore.len())), st2)
                } else {
                    let (last, st3) = spec_assemble(st2, boot_text(restore.len() as usize));
                    match last {
                        Err(e) => (Err(e), st3),
                        Ok(boot) => if boot.len() != boot_size {
                            (Err(boot_changed_message(boot_size, boot.len())), st3)
                        } else {
                            (Ok(CodeView { boot, restore, relocated }), st3)
                        },
                    }
                },
            }
        },
    }
}

/// The code of the cartridge in tool state `st`, and the state after it. The
/// boot code is assembled first, for a restore routine of size 0, then the
/// relocated decompressor; the rest follows from their sizes.
#[verifier::opaque]
pub open spec fn cartridge_code(s: StreamsView, st: ToolState) -> (
    Result<CodeView, Seq<char>>,
    ToolState,
) {
    let (boot, st1) = spec_assemble(st, boot_text(0));
    match boot {
        Err(e) => (Err(e), st1),
        Ok(boot_pass1) => {
            let (relocated, st2) = spec_assemble(st1, relocated_text(s.block9_addr));
            match relocated {
                Err(e) => (Err(e), st2),
                Ok(relocated_binary) => code_after_relocated(
                    s,
                    boot_pass1.len(),
                    relocated_binary.len(),
                    st2,
                ),
            }
        },
    }
}

/// Number of banks that boot code of `boot` bytes and a payload of `payload`
/// bytes behind it need.
pub open spec fn required_banks(payload: nat, boot: nat) -> nat {
    let bank0_space = (BANK_SIZE_8K - boot) as nat;
    if payload <= bank0_space {
        1
    } else {
        (1 + (payload - bank0_space + BANK_SIZE_8K - 1) / (BANK_SIZE_8K as int)) as nat
    }
}

/// Number of banks of the cartridge: what the data needs, and at least 8.
pub open spec fn bank_count_for(payload: nat, boot: nat) -> nat {
    if required_banks(payload, boot) < MIN_BANKS {
        MIN_BANKS as nat
    } else {
        required_banks(payload, boot)
    }
}

/// The name of a cartridge that was given none.
pub open spec fn default_name() -> Seq<char> {
    "VICE SNAPSHOT"@
}

/// The cartridge file made of the code and the compressed RAM, or why there
/// is none: the boot code must fit into bank 0, the data into 64 banks, and
/// the name into 32 bytes.
#[verifier::opaque]
pub open spec fn cartridge(name: Option<Seq<char>>, code: CodeView, ram_lzsa: Seq<u8>) -> Result<
    Seq<u8>,
    Seq<char>,
> {
    let payload = code.restore + code.relocated + ram_lzsa;
    let chosen = match name {
        Some(n) => n,
        None => default_name(),
    };
    if code.boot.len() > BANK_SIZE_8K {
        Err(overflow_message(code.boot.len(), 0))
    } else if required_banks(payload.len(), code.boot.len()) > MAX_BANKS {
        Err(too_many_banks_message(required_banks(payload.len(), code.boot.len())))
    } else if encode_utf8(chosen).len() > 32 {
        Err("Name cannot be longer than 32 characters"@)
    } else {
        let banks = bank_count_for(payload.len(), code.boot.len());
        Ok(
            crt_file(
                CartridgeType::MagicDesk,
                encode_utf8(upper_name(chosen)),
                bank_image(code.boot + payload, banks),
                no_high_windows(banks),
            ),
        )
    }
}

/// What the conversion of the stream `input` to a cartridge gives in tool
/// state `st`, and the state after it.
pub open spec fn magic_desk_conversion(
    name: Option<Seq<char>>,
    extra: Seq<(u16, u16)>,
    input: Seq<u8>,
    st: ToolState,
) -> (ReplyView, ToolState) {
    match parse_snapshot(input) {
        Err(e) => (Err("Failed to parse VSF: "@ + e), st),
        Ok(snap) => {
            let ram = zeroed(snap.mem.ram, extra, extra.len() as int);
            let (streams, st1) = restore_streams(snap, ram, st);
            match streams {
                Err(e) => (Err(e), st1),
                Ok(s) => {
                    let (code, st2) = cartridge_code(s, st1);
                    (
                        match code {
                            Err(e) => Err(e),
                            Ok(c) => cartridge(name, c, s.compressed.ram),
                        },
                        st2,
                    )
                },
            }
        },
    }
}

/// All banks together hold the boot code and the payload: with the number
/// of banks that is chosen for them, nothing is cut off.
pub proof fn lemma_banks_hold_payload(payload: nat, boot: nat)
    requires
        boot <= BANK_SIZE_8K,
    ensures
        boot + payload <= BANK_SIZE_8K * bank_count_for(payload, boot),
        bank_count_for(payload, boot) >= MIN_BANKS,
        bank_count_for(payload, boot) >= required_banks(payload, boot),
        bank_count_for(payload, boot) == required_banks(payload, boot) || bank_count_for(
            payload,
            boot,
        ) == MIN_BANKS,
        boot + payload <= BANK_SIZE_8K * required_banks(payload, boot),
        required_banks(payload, boot) > 1 ==> boot + payload > BANK_SIZE_8K * (required_banks(
            payload,
            boot,
        ) - 1),
{
}

/// A copy of a byte string.
fn copy_of(v: &Vec<u8>) -> (r: Vec<u8>)
    ensures
        r@ == v@,
{
    let r = copy_range(v.as_slice(), 0, v.len());
    assert(r@ =~= v@);
    r
}

/// Checks that the sizes can be laid out.
fn check_sizes(relocated: usize, ram: usize, boot: usize, restore: usize) -> (r: Result<(), String>)
    ensures
        match sizes_error(relocated as nat, ram as nat, boot as nat, restore as nat) {
            Some(message) => r matches Err(m) && m@ == message,
            None => r is Ok,
        },
{
    if relocated > 0x10000 || ram > 0x10000 - relocated {
        let mut m = String::from_str("Restore data does not fit into RAM: ");
        m.append(decimal(relocated).as_str());
        m.append(" + ");
        m.append(decimal(ram).as_str());
        m.append(" bytes (max 65536)");
        return Err(m);
    }
    if boot > MAX_CODE_SIZE || restore > MAX_CODE_SIZE - boot {
        let mut m = String::from_str("Restore code does not fit into the cartridge: ");
        m.append(decimal(boot).as_str());
        m.append(" + ");
        m.append(decimal(restore).as_str());
        m.append(" bytes (max 524288)");
        return Err(m);
    }
    Ok(())
}

/// Converter of snapshots to 8 KiB-banked cartridges.
pub struct ConvertSnapshotMagicDeskCRT {
    config: CrtConfig,
    extra_ram_blocks: Vec<(u16, u16)>,
}

impl ConvertSnapshotMagicDeskCRT {
    /// The name that the cartridge is given, if it is given one.
    pub closed spec fn name(&self) -> Option<Seq<char>> {
        match self.config.cartridge_name {
            Some(n) => Some(n@),
            None => None,
        }
    }

    /// The ranges of RAM, each an address and a length, that are given up as
    /// free memory.
    pub closed spec fn extra_blocks(&self) -> Seq<(u16, u16)> {
        self.extra_ram_blocks@
    }

    /// A converter with the given configuration.
    pub fn new(config: CrtConfig) -> (r: Self)
        ensures
            r.extra_blocks() == Seq::<(u16, u16)>::empty(),
            r.name() == match config.cartridge_name {
                Some(n) => Some(n@),
                None => None,
            },
    {
        Self::with_extra_blocks(config, Vec::new())
    }

    /// A converter that also gives up the ranges `extra_ram_blocks`, each an
    /// address and a length, as free memory.
    pub fn with_extra_blocks(config: CrtConfig, extra_ram_blocks: Vec<(u16, u16)>) -> (r: Self)
        ensures
            r.extra_blocks() == extra_ram_blocks@,
            r.name() == match config.cartridge_name {
                Some(n) => Some(n@),
                None => None,
            },
    {
        ConvertSnapshotMagicDeskCRT { config, extra_ram_blocks }
    }

    /// Number of banks of the cartridge for boot code of `boot` bytes and a
    /// payload of `payload` bytes: what they need, and at least 8.
    pub fn bank_count(payload: usize, boot: usize) -> (r: usize)
        requires
            boot <= BANK_SIZE_8K,
        ensures
            r == bank_count_for(payload as nat, boot as nat),
            r >= MIN_BANKS,
    {
        let required = Self::required_bank_count(payload, boot);
        if required < MIN_BANKS {
            MIN_BANKS
        } else {
            required
        }
    }

    /// Number of banks that boot code of `boot` bytes and a payload of
    /// `payload` bytes behind it need.
    pub fn required_bank_count(payload: usize, boot: usize) -> (r: usize)
        requires
            boot <= BANK_SIZE_8K,
        ensures
            r == required_banks(payload as nat, boot as nat),
    {
        let bank0_payload_space = BANK_SIZE_8K - boot;
        if payload <= bank0_payload_space {
            1
        } else {
            let remaining = payload - bank0_payload_space;
            1 + (remaining / BANK_SIZE_8K + if remaining % BANK_SIZE_8K == 0 {
                0
            } else {
                1
            })
        }
    }

    /// A generator of the restore routine for the given sizes.
    fn generator(
        streams: &RestoreStreams,
        relocated_size: usize,
        restore_code_size: usize,
        boot_code_size: usize,
    ) -> (r: MakeMagicDeskCRTAsm)
        requires
            streams.cia1@.len() == 20,
            streams.cia2@.len() == 20,
        ensures
            r@ == restore_parts(streams@, relocated_size, restore_code_size, boot_code_size),
    {
        match MakeMagicDeskCRTAsm::new(
            copy_of(&streams.compressed.color),
            copy_of(&streams.compressed.vic),
            copy_of(&streams.compressed.sid),
            copy_of(&streams.cia1),
            copy_of(&streams.cia2),
            copy_of(&streams.compressed.zp),
            streams.block9_addr,
            streams.f8_ff,
            relocated_size,
            streams.compressed.ram.len(),
            restore_code_size,
            boot_code_size,
        ) {
            Ok(g) => g,
            Err(_) => vstd::pervasive::unreached(),
        }
    }

    /// One pass over the restore routine.
    fn assemble_pass(
        streams: &RestoreStreams,
        boot_code_size: usize,
        relocated_size: usize,
        size: usize,
        tools: &mut Toolchain,
    ) -> (r: Result<Vec<u8>, String>)
        requires
            streams.cia1@.len() == 20,
            streams.cia2@.len() == 20,
        ensures
            (reply_view(r), final(tools)@) == restore_pass(
                streams@,
                boot_code_size as nat,
                relocated_size as nat,
                size as nat,
                old(tools)@,
            ),
    {
        match check_sizes(relocated_size, streams.compressed.ram.len(), boot_code_size, size) {
            Ok(()) => {},
            Err(e) => {
                return Err(e);
            },
        }
        let crt_asm = Self::generator(streams, relocated_size, size, boot_code_size);
        crt_asm.generate_restore_code_binary(tools)
    }

    /// Assembles the restore routine until its size is settled.
    pub fn settle_restore_code(
        streams: &RestoreStreams,
        boot_code_size: usize,
        relocated_size: usize,
        tools: &mut Toolchain,
    ) -> (r: Result<Vec<u8>, String>)
        requires
            streams.cia1@.len() == 20,
            streams.cia2@.len() == 20,
        ensures
            (reply_view(r), final(tools)@) == settled_restore_code(
                streams@,
                boot_code_size as nat,
                relocated_size as nat,
                old(tools)@,
            ),
    {
        let pass1 = match Self::assemble_pass(streams, boot_code_size, relocated_size, 0, tools) {
            Ok(code) => code,
            Err(e) => {
                return Err(e);
            },
        };
        let pass2 = match Self::assemble_pass(
            streams,
            boot_code_size,
            relocated_size,
            pass1.len(),
            tools,
        ) {
            Ok(code) => code,
            Err(e) => {
                return Err(e);
            },
        };
        if pass2.len() == pass1.len() {
            return Ok(pass2);
        }
        let pass3 = match Self::assemble_pass(
            streams,
            boot_code_size,
            relocated_size,
            pass2.len(),
            tools,
        ) {
            Ok(code) => code,
            Err(e) => {
                return Err(e);
            },
        };
        if pass3.len() != pass2.len() {
            let mut m = String::from_str("Code size unstable: ");
            m.append(decimal(pass2.len()).as_str());
            m.append(" vs ");
            m.append(decimal(pass3.len()).as_str());
            return Err(m);
        }
        Ok(pass3)
    }

    /// Assembles the code of the cartridge.
    pub fn assemble_code(streams: &RestoreStreams, tools: &mut Toolchain) -> (r: Result<
        CartridgeCode,
        String,
    >)
        requires
            streams.cia1@.len() == 20,
            streams.cia2@.len() == 20,
        ensures
            (code_view(r), final(tools)@) == cartridge_code(streams@, old(tools)@),
    {
        reveal(cartridge_code);
        let boot_asm_pass1 = MakeMagicDeskBootAsm::new(0);
        let boot_code_pass1 = match boot_asm_pass1.generate_boot_code(tools) {
            Ok(code) => code,
            Err(e) => {
                return Err(e);
            },
        };
        let boot_code_size = boot_code_pass1.len();
        let crt_asm_temp = Self::generator(streams, 0, 0, boot_code_size);
        let relocated_binary = match crt_asm_temp.generate_relocated_decompressor(tools) {
            Ok(code) => code,
            Err(e) => {
                return Err(e);
            },
        };
        let relocated_size = relocated_binary.len();
        let final_restore_code = match Self::settle_restore_code(
            streams,
            boot_code_size,
            relocated_size,
            tools,
        ) {
            Ok(code) => code,
            Err(e) => {
                return Err(e);
            },
        };
        let crt_asm_final = Self::generator(
            streams,
            relocated_size,
            final_restore_code.len(),
            boot_code_size,
        );
        let final_relocated = match crt_asm_final.generate_relocated_decompressor(tools) {
            Ok(code) => code,
            Err(e) => {
                return Err(e);
            },
        };
        let size = final_restore_code.len();
        let pages = size / 256 + if size % 256 == 0 {
            0
        } else {
            1
        };
        assert(pages == pages_for(size as nat));
        if pages > 255 {
            let mut m = String::from_str("Restore code too large: ");
            m.append(decimal(size).as_str());
            m.append(" bytes = ");
            m.append(decimal(pages).as_str());
            m.append(" pages (max 255 pages)");
            return Err(m);
        }
        let boot_asm_final = MakeMagicDeskBootAsm::new(size);
        let boot_code_binary = match boot_asm_final.generate_boot_code(tools) {
            Ok(code) => code,
            Err(e) => {
                return Err(e);
            },
        };
        if boot_code_binary.len() != boot_code_size {
            let mut m = String::from_str("Boot code size changed between passes: ");
            m.append(decimal(boot_code_size).as_str());
            m.append(" -> ");
            m.append(decimal(boot_code_binary.len()).as_str());
            m.append(". This is a bug - please report it.");
            return Err(m);
        }
        Ok(
            CartridgeCode {
                boot: boot_code_binary,
                restore: final_restore_code,
                relocated: final_relocated,
            },
        )
    }

    /// Builds the cartridge file from the assembled code and the compressed
    /// RAM.
    pub fn build_cartridge(&self, code: &CartridgeCode, ram_lzsa: &[u8]) -> (r: Result<
        Vec<u8>,
        String,
    >)
        ensures
            reply_view(r) == cartridge(self.name(), code@, ram_lzsa@),
    {
        reveal(cartridge);
        if code.boot.len() > BANK_SIZE_8K {
            let mut m = String::from_str("Data does not fit in bank (");
            m.append(decimal(code.boot.len()).as_str());
            m.append(" bytes + offset ");
            m.append(decimal(0).as_str());
            m.append(" > 8192)");
            return Err(m);
        }
        let mut image: Vec<u8> = Vec::new();
        append_all(&mut image, code.boot.as_slice());
        append_all(&mut image, code.restore.as_slice());
        append_all(&mut image, code.relocated.as_slice());
        append_all(&mut image, ram_lzsa);
        let ghost payload = code.restore@ + code.relocated@ + ram_lzsa@;
        assert(image@ =~= code.boot@ + payload);
        let total_payload_size = image.len() - code.boot.len();
        let required = Self::required_bank_count(total_payload_size, code.boot.len());
        if required > MAX_BANKS {
            let mut m = String::from_str(
                "Snapshot data is too large for Magic Desk cartridge!\n\nRequired banks: ",
            );
            m.append(decimal(required).as_str());
            m.append(
                "\nMaximum banks:  64 (524288 bytes)\n\nThe snapshot is too large or doesn't compress well enough.",
            );
            return Err(m);
        }
        let num_banks = Self::bank_count(total_payload_size, code.boot.len());
        let mut crt = match &self.config.cartridge_name {
            Some(name) => match CRTBuilder::new(
                CartridgeType::MagicDesk,
                num_banks,
                name.as_str(),
            ) {
                Ok(crt) => crt,
                Err(e) => {
                    return Err(e);
                },
            },
            None => match CRTBuilder::new(CartridgeType::MagicDesk, num_banks, "VICE SNAPSHOT") {
                Ok(crt) => crt,
                Err(e) => {
                    return Err(e);
                },
            },
        };
        proof {
            lemma_banks_hold_payload(total_payload_size as nat, code.boot@.len());
        }
        assert(crt.roml() =~= empty_banks(num_banks as nat));
        assert(crt.romh() =~= no_high_windows(num_banks as nat));
        crt.fill_image(image.as_slice());
        Ok(crt.generate_crt_data())
    }

    /// Converts the snapshot stream `input` to a cartridge file, as far as
    /// the results in `tools` reach.
    pub fn convert(&self, input: &[u8], tools: &mut Toolchain) -> (r: Result<Vec<u8>, String>)
        ensures
            (reply_view(r), final(tools)@) == magic_desk_conversion(
                self.name(),
                self.extra_blocks(),
                input@,
                old(tools)@,
            ),
    {
        let raw = copy_range(input, 0, input.len());
        assert(raw@ =~= input@);
        let parser = ParseVSF::new(raw);
        let snap = match parser.parse_import() {
            Ok(snap) => snap,
            Err(e) => {
                return Err(String::from_str("Failed to parse VSF: ").concat(e.as_str()));
            },
        };
        let mut ram: [u8; 65536] = *snap.mem.ram;
        zero_extra_blocks(&mut ram, self.extra_ram_blocks.as_slice());
        let streams = match prepare_streams(&parser, &snap, ram, tools) {
            Ok(streams) => streams,
            Err(e) => {
                return Err(e);
            },
        };
        let code = match Self::assemble_code(&streams, tools) {
            Ok(code) => code,
            Err(e) => {
                return Err(e);
            },
        };
        self.build_cartridge(&code, streams.compressed.ram.as_slice())
    }
}

} // verus!

verus! {

/// A cartridge that was given no name is called `VICE SNAPSHOT`: its file
/// holds the name in bytes 32 to 44, and zeros from there to the end of the
/// header.
pub proof fn lemma_default_name(extra: Seq<(u16, u16)>, input: Seq<u8>, st: ToolState)
    ensures
        magic_desk_conversion(None, extra, input, st).0 matches Ok(out) ==> out.len() >= 64
            && out.subrange(32, 45) == default_name_bytes() && out.subrange(45, 64) == repeat(
            0,
            19,
        ),
{
    reveal(cartridge);
    reveal_strlit("VICE SNAPSHOT");
    lemma_upper_name_bytes(default_name(), default_name_bytes());
    assert forall|roml: Seq<Seq<u8>>, romh: Seq<Option<Seq<u8>>>|
        {
            let file = #[trigger] crt_file(
                CartridgeType::MagicDesk,
                default_name_bytes(),
                roml,
                romh,
            );
            file.len() >= 64 && file.subrange(32, 45) == default_name_bytes() && file.subrange(
                45,
                64,
            ) == repeat(0, 19)
        } by {
        lemma_default_name_in_file(CartridgeType::MagicDesk, roml, romh);
    }
}

} // verus!
