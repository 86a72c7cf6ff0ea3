//! Conversion of a snapshot to a 16 KiB-banked cartridge.
//!
//! The low windows hold the restore routine, the relocated decompressor and
//! the compressed RAM, from bank 0 on. The high window of bank 0 holds the
//! startup code and the vectors. Where files are embedded, the banks behind
//! the restore data hold them, the high window of bank 0 also holds the
//! load/save handler, the directory and the file names, and the load and save
//! vectors in the image point at a trampoline.

use vstd::prelude::*;
use vstd::string::*;
use vstd::utf8::*;
use crate::bytes::{append_all, copy_range, repeat};
use crate::config::CrtConfig;
use crate::convert_snapshot::{
    prepare_streams, restore_streams, zero_extra_blocks, zeroed, RestoreStreams, StreamsView,
};
use crate::convert_snapshot_magic_desk_crt::{sizes_error, MAX_CODE_SIZE};
use crate::crt_builder::{
    default_name_bytes, lemma_default_name_in_file, lemma_upper_name_bytes, bank_image, crt_file, empty_banks, missing_bank_message, no_high_windows, overflow_message,
    upper_name, CRTBuilder, CartridgeType, BANK_SIZE_8K,
};
use crate::file_system_manager::{
    allocated_banks, allocation_views, metadata_entries, place_all, stored_names, write_files,
    AllocationView, FileAllocation, FileSystemManager, PRGFile, AREA_SIZE,
};
use crate::load_save_hook::{
    built_handler, built_trampoline, hook_result, ram_after_hook, unstable_message, HookView,
    LoadSaveHook,
    RoutineAddresses, SAFE_STACK_POINTER, TRAMPOLINE_PAGE1, TRAMPOLINE_PAGE3,
};
use crate::make_crt_asm::{main_code_text, relocated_text, MakeCRTAsm, RestoreParts};
use crate::make_romh_asm::{romh_text, romh_window, MakeROMHAsm};
use crate::parse_vsf::{parse_snapshot, ParseVSF};
use crate::text::decimal;
use crate::toolchain::{reply_view, spec_assemble, ReplyView, ToolState, Toolchain};

verus! {

/// Number of banks that files may lie in.
pub const FILE_BANK_LIMIT: usize = 64;

/// What of the configuration a conversion depends on.
pub struct CrtSettings {
    /// Whether a directory of files to embed is set.
    pub has_include_dir: bool,
    /// The fixed address of the trampoline, if one is set.
    pub trampoline_address: Option<u16>,
    /// Whether the trampoline is placed by the stack pointer.
    pub auto_location: bool,
    /// The name of the cartridge, if one is set.
    pub cartridge_name: Option<Seq<char>>,
    /// Whether the load and save vectors are hooked.
    pub patch_load_save: bool,
}

/// What of `config` a conversion depends on.
pub open spec fn settings_of(config: CrtConfig) -> CrtSettings {
    CrtSettings {
        has_include_dir: config.include_dir is Some,
        trampoline_address: config.trampoline_address,
        auto_location: config.auto_location,
        cartridge_name: match config.cartridge_name {
            Some(n) => Some(n@),
            None => None,
        },
        patch_load_save: config.patch_load_save,
    }
}

/// Load and save are served from the cartridge: a directory of files is set,
/// and hooking is on.
pub open spec fn has_files(settings: CrtSettings) -> bool {
    settings.has_include_dir && settings.patch_load_save
}

/// Where the trampoline is placed: by the stack pointer, in the stack page
/// where the stack cannot grow into it, else behind the vectors; or at the
/// fixed address, where one is set and automatic placing is off.
pub open spec fn trampoline_place(settings: CrtSettings, sp: u8) -> u16 {
    if settings.auto_location || settings.trampoline_address is None {
        if sp >= SAFE_STACK_POINTER {
            TRAMPOLINE_PAGE1
        } else {
            TRAMPOLINE_PAGE3
        }
    } else {
        settings.trampoline_address->0
    }
}

/// A hook that has not built anything yet.
pub open spec fn fresh_hook(sp: u8, address: u16) -> HookView {
    HookView {
        stack_pointer: sp,
        has_files: true,
        trampoline_address: address,
        routines: RoutineAddresses { set_bank: 0, copy_data: 0, save_trampoline: 0 },
        temp_filename_addr: 0,
        trampoline_binary: Seq::empty(),
    }
}

/// The image with the trampoline and the vectors in it, and the hook that
/// built them; the image as it is and no hook where load and save are not
/// served from the cartridge.
#[verifier::opaque]
pub open spec fn hooked(settings: CrtSettings, sp: u8, ram: Seq<u8>, st: ToolState) -> (
    Result<(Seq<u8>, Option<HookView>), Seq<char>>,
    ToolState,
) {
    if !has_files(settings) {
        (Ok((ram, None)), st)
    } else {
        let fresh = fresh_hook(sp, trampoline_place(settings, sp));
        let (hook, built, after) = built_trampoline(fresh, st);
        (
            match hook_result(fresh, built) {
                Err(e) => Err("Failed to hook LOAD/SAVE: "@ + e),
                Ok(()) => Ok(
                    (
                        ram_after_hook(ram, fresh, built, hook.routines.save_trampoline),
                        Some(hook),
                    ),
                ),
            },
            after,
        )
    }
}

/// The assembled code of a cartridge.
#[derive(Debug)]
pub struct EasyFlashCode {
    pub restore: Vec<u8>,
    pub relocated: Vec<u8>,
    pub load_save: Option<Vec<u8>>,
}

/// The assembled code as spec values.
pub struct EasyFlashCodeView {
    pub restore: Seq<u8>,
    pub relocated: Seq<u8>,
    pub load_save: Option<Seq<u8>>,
}

impl View for EasyFlashCode {
    type V = EasyFlashCodeView;

    open spec fn view(&self) -> EasyFlashCodeView {
        EasyFlashCodeView {
            restore: self.restore@,
            relocated: self.relocated@,
            load_save: match self.load_save {
                Some(code) => Some(code@),
                None => None,
            },
        }
    }
}

/// The view of code or a message.
pub open spec fn code_view(r: Result<EasyFlashCode, String>) -> Result<EasyFlashCodeView, Seq<char>> {
    match r {
        Ok(c) => Ok(c@),
        Err(m) => Err(m@),
    }
}

/// What the generator of the restore routine works on. No load/save code
/// lies in the low windows.
pub open spec fn restore_parts(s: StreamsView, relocated_size: usize, restore_code_size: usize) -> RestoreParts {
    RestoreParts {
        color: s.compressed.color,
        vic: s.compressed.vic,
        sid: s.compressed.sid,
        cia1: s.cia1,
        cia2: s.cia2,
        zp: s.compressed.zp,
        f8_ff: s.f8_ff,
        block9: s.block9_addr,
        relocated_size,
        ram_lzsa_size: s.compressed.ram.len() as usize,
        restore_code_size,
        extra_size: 0,
    }
}

/// One pass over the restore routine: it is assembled for the size `size` of
/// itself, where the sizes can be laid out.
pub open spec fn restore_pass(s: StreamsView, relocated_size: nat, size: nat, st: ToolState) -> (
    ReplyView,
    ToolState,
) {
    match sizes_error(relocated_size, s.compressed.ram.len(), 0, size) {
        Some(message) => (Err(message), st),
        None => spec_assemble(
            st,
            main_code_text(restore_parts(s, relocated_size as usize, size as usize)),
        ),
    }
}

/// The restore routine that the passes settle on. The first pass is made for a
/// size of 0, the second the size of the first. If that changes the size, a
/// third is made for the size of the second and must give code of the same size.
pub open spec fn settled_restore_code(s: StreamsView, relocated_size: nat, st: ToolState) -> (
    ReplyView,
    ToolState,
) {
    let (first, st1) = restore_pass(s, relocated_size, 0, st);
    match first {
        Err(e) => (Err(e), st1),
        Ok(pass1) => {
            let (second, st2) = restore_pass(s, relocated_size, pass1.len(), st1);
            match second {
                Err(e) => (Err(e), st2),
                Ok(pass2) => if pass2.len() == pass1.len() {
                    (Ok(pass2), st2)
                } else {
                    let (third, st3) = restore_pass(s, relocated_size, pass2.len(), st2);
                    match third {
                        Err(e) => (Err(e), st3),
                        Ok(pass3) => if pass3.len() != pass2.len() {
                            (Err(unstable_message(pass2.len(), pass3.len())), st3)
                        } else {
                            (Ok(pass3), st3)
                        },
                    }
                },
            }
        },
    }
}

/// The restore routine and the relocated decompressor, once the size of the
/// relocated decompressor is known: the restore routine is settled, then the
/// relocated decompressor is assembled once more.
pub open spec fn restore_code(s: StreamsView, relocated_size: nat, st: ToolState) -> (
    Result<(Seq<u8>, Seq<u8>), Seq<char>>,
    ToolState,
) {
    let (settled, st1) = settled_restore_code(s, relocated_size, st);
    match settled {
        Err(e) => (Err(e), st1),
        Ok(restore) => {
            let (assembled, st2) = spec_assemble(st1, relocated_text(s.block9_addr));
            (
                match assembled {
                    Err(e) => Err(e),
                    Ok(relocated) => Ok((restore, relocated)),
                },
                st2,
            )
        },
    }
}

/// The code of the cartridge in tool state `st`, and the state after it:
/// the relocated decompressor is assembled first, then the load/save handler
/// where there is a hook, then the restore routine.
#[verifier::opaque]
pub open spec fn cartridge_code(s: StreamsView, hook: Option<HookView>, st: ToolState) -> (
    Result<EasyFlashCodeView, Seq<char>>,
    ToolState,
) {
    let (first, st1) = spec_assemble(st, relocated_text(s.block9_addr));
    match first {
        Err(e) => (Err(e), st1),
        Ok(relocated_binary) => {
            let (handler, st2): (Result<Option<Seq<u8>>, Seq<char>>, ToolState) = match hook {
                Some(h) => (
                    match built_handler(h, st1).1 {
                        Ok(code) => Ok(Some(code)),
                        Err(e) => Err(e),
                    },
                    built_handler(h, st1).2,
                ),
                None => (Ok(None), st1),
            };
            match handler {
                Err(e) => (Err(e), st2),
                Ok(load_save) => {
                    let (code, st3) = restore_code(s, relocated_binary.len(), st2);
                    (
                        match code {
                            Err(e) => Err(e),
                            Ok((restore, relocated)) => Ok(
                                EasyFlashCodeView { restore, relocated, load_save },
                            ),
                        },
                        st3,
                    )
                },
            }
        },
    }
}

/// Where the files lie, with the directory and the block of file names.
#[derive(Debug)]
pub struct FileLayout {
    pub allocations: Vec<FileAllocation>,
    pub metadata: Vec<u8>,
    pub filenames: Vec<u8>,
}

/// The same as spec values.
pub struct FileLayoutView {
    pub allocations: Seq<AllocationView>,
    pub metadata: Seq<u8>,
    pub filenames: Seq<u8>,
}

impl View for FileLayout {
    type V = FileLayoutView;

    open spec fn view(&self) -> FileLayoutView {
        FileLayoutView {
            allocations: allocation_views(self.allocations@),
            metadata: self.metadata@,
            filenames: self.filenames@,
        }
    }
}

/// The view of a layout, of none, or of a message.
pub open spec fn layout_view(r: Result<Option<FileLayout>, String>) -> Result<
    Option<FileLayoutView>,
    Seq<char>,
> {
    match r {
        Ok(Some(layout)) => Ok(Some(layout@)),
        Ok(None) => Ok(None),
        Err(m) => Err(m@),
    }
}

/// Number of banks that `size` bytes fill or begin.
pub open spec fn banks_for(size: nat) -> nat {
    ((size + BANK_SIZE_8K - 1) / (BANK_SIZE_8K as int)) as nat
}

/// Number of banks that the restore data needs.
pub open spec fn restore_banks_needed(code: EasyFlashCodeView, ram_lzsa: Seq<u8>) -> nat {
    banks_for(code.restore.len() + code.relocated.len() + ram_lzsa.len())
}

/// The banks for files: from `first` up to bank 63.
pub open spec fn available_banks(first: nat) -> Seq<usize> {
    if first < FILE_BANK_LIMIT {
        Seq::new((FILE_BANK_LIMIT - first) as nat, |i: int| (first + i) as usize)
    } else {
        Seq::empty()
    }
}

/// Where the files lie if the banks from `first_bank` on are theirs, with the
/// directory and the block of file names; nothing where no directory is set
/// or there are no files.
#[verifier::opaque]
pub open spec fn file_layout(settings: CrtSettings, files: Seq<PRGFile>, first_bank: nat) -> Result<
    Option<FileLayoutView>,
    Seq<char>,
> {
    if !settings.has_include_dir || files.len() == 0 {
        Ok(None)
    } else {
        match place_all(files, available_banks(first_bank), files.len() as int) {
            Err(e) => Err(e),
            Ok((allocations, _, _)) => if allocations.len() > 128 {
                Err("Too many files - metadata area full"@)
            } else if stored_names(allocations, allocations.len() as int).len() > AREA_SIZE {
                Err("Filename area full"@)
            } else {
                Ok(
                    Some(
                        FileLayoutView {
                            allocations,
                            metadata: metadata_entries(allocations, allocations.len() as int)
                                + repeat(0, (AREA_SIZE - 16 * allocations.len()) as nat),
                            filenames: stored_names(allocations, allocations.len() as int)
                                + repeat(
                                0,
                                (AREA_SIZE - stored_names(
                                    allocations,
                                    allocations.len() as int,
                                ).len()) as nat,
                            ),
                        },
                    ),
                )
            },
        }
    }
}

/// `count` banks hold the files: none where no bank holds file data, else
/// one more than the largest bank number that does; a machine word at most.
pub open spec fn is_file_bank_count(allocations: Seq<AllocationView>, count: nat) -> bool {
    let banks = allocated_banks(allocations, allocations.len() as int);
    if count == 0 {
        banks == Set::<usize>::empty()
    } else {
        exists|b: usize|
            {
                &&& #[trigger] banks.contains(b)
                &&& forall|c: usize| banks.contains(c) ==> c <= b
                &&& count == if b < usize::MAX {
                    b + 1
                } else {
                    usize::MAX as int
                }
            }
    }
}

/// Number of banks that hold the files of a layout.
pub open spec fn file_bank_count(layout: Option<FileLayoutView>) -> nat {
    match layout {
        Some(l) => choose|count: nat| is_file_bank_count(l.allocations, count),
        None => 0,
    }
}

/// Number of banks that the cartridge is made with: what the restore data
/// and the files need, and at least one.
pub open spec fn total_banks(restore_banks: nat, file_banks: nat) -> nat {
    let larger = if restore_banks < file_banks {
        file_banks
    } else {
        restore_banks
    };
    if larger < 1 {
        1
    } else {
        larger
    }
}

/// What lies in the low windows, from bank 0 on: the restore routine, the
/// relocated decompressor and the compressed RAM, one behind the other.
pub open spec fn roml_image(code: EasyFlashCodeView, ram_lzsa: Seq<u8>) -> Seq<u8> {
    code.restore + code.relocated + ram_lzsa
}

/// The name of a cartridge that was given none.
pub open spec fn default_name() -> Seq<char> {
    "VICE Snapshot"@
}

/// The high windows of `banks` banks of which only bank 0 has one.
pub open spec fn high_windows(banks: nat, window: Seq<u8>) -> Seq<Option<Seq<u8>>> {
    no_high_windows(banks).update(0, Some(window))
}

/// The cartridge file in tool state `st`, and the state after it.
///
/// The cartridge has as many banks as the restore data and the files need,
/// and as what lies in the low windows fills. The name must fit into 32
/// bytes and the restore routine into bank 0. The startup code for the high
/// window is assembled, and the files are written into their banks.
#[verifier::opaque]
pub open spec fn cartridge(
    name: Option<Seq<char>>,
    code: EasyFlashCodeView,
    ram_lzsa: Seq<u8>,
    layout: Option<FileLayoutView>,
    st: ToolState,
) -> (ReplyView, ToolState) {
    let chosen = match name {
        Some(n) => n,
        None => default_name(),
    };
    let planned = total_banks(restore_banks_needed(code, ram_lzsa), file_bank_count(layout));
    let image = roml_image(code, ram_lzsa);
    let banks = if planned < banks_for(image.len()) {
        banks_for(image.len())
    } else {
        planned
    };
    if encode_utf8(chosen).len() > 32 {
        (Err("Name cannot be longer than 32 characters"@), st)
    } else if code.restore.len() > BANK_SIZE_8K {
        (Err(overflow_message(code.restore.len(), 0)), st)
    } else {
        let (assembled, after) = spec_assemble(st, romh_text(code.restore.len() as usize));
        (
            match assembled {
                Err(e) => Err(e),
                Ok(startup) => {
                    let window = romh_window(
                        startup,
                        code.load_save,
                        match layout {
                            Some(l) => Some(l.metadata),
                            None => None,
                        },
                        match layout {
                            Some(l) => Some(l.filenames),
                            None => None,
                        },
                    );
                    let (roml, missing) = match layout {
                        Some(l) => write_files(
                            bank_image(image, banks),
                            l.allocations,
                            l.allocations.len() as int,
                        ),
                        None => (bank_image(image, banks), None),
                    };
                    match missing {
                        Some(bank) => Err(missing_bank_message(bank as nat, banks)),
                        None => Ok(
                            crt_file(
                                CartridgeType::EasyFlash,
                                encode_utf8(upper_name(chosen)),
                                roml,
                                high_windows(banks, window),
                            ),
                        ),
                    }
                },
            },
            after,
        )
    }
}

/// What the conversion of the stream `input` to a cartridge with the files
/// `files` gives in tool state `st`, and the state after it.
///
/// The stream is decoded and the ranges given up are set to zero. Where load
/// and save are served from the cartridge, the trampoline is built and
/// written into the image. Then the image is patched, the streams are
/// compressed, the code is assembled, the files are laid out, and the
/// cartridge is built.
pub open spec fn crt_conversion(
    settings: CrtSettings,
    extra: Seq<(u16, u16)>,
    input: Seq<u8>,
    files: Seq<PRGFile>,
    st: ToolState,
) -> (ReplyView, ToolState) {
    match parse_snapshot(input) {
        Err(e) => (Err("Failed to parse VSF: "@ + e), st),
        Ok(snap) => {
            let cleared = zeroed(snap.mem.ram, extra, extra.len() as int);
            let (with_hook, st1) = hooked(settings, snap.cpu.sp, cleared, st);
            match with_hook {
                Err(e) => (Err(e), st1),
                Ok((ram, hook)) => {
                    let (streams, st2) = restore_streams(snap, ram, st1);
                    match streams {
                        Err(e) => (Err(e), st2),
                        Ok(s) => {
                            let (code, st3) = cartridge_code(s, hook, st2);
                            match code {
                                Err(e) => (Err(e), st3),
                                Ok(c) => match file_layout(
                                    settings,
                                    files,
                                    restore_banks_needed(c, s.compressed.ram),
                                ) {
                                    Err(e) => (Err(e), st3),
                                    Ok(layout) => cartridge(
                                        settings.cartridge_name,
                                        c,
                                        s.compressed.ram,
                                        layout,
                                        st3,
                                    ),
                                },
                            }
                        },
                    }
                },
            }
        },
    }
}

/// The view of an optional hook.
pub open spec fn hook_view(hook: Option<LoadSaveHook>) -> Option<HookView> {
    match hook {
        Some(h) => Some(h@),
        None => None,
    }
}

/// A copy of a byte string.
fn copy_of(v: &Vec<u8>) -> (r: Vec<u8>)
    ensures
        r@ == v@,
{
    let r = copy_range(v.as_slice(), 0, v.len());
    assert(r@ =~= v@);
    r
}

/// Checks that the sizes can be laid out.
fn check_sizes(relocated: usize, ram: usize, restore: usize) -> (r: Result<(), String>)
    ensures
        match sizes_error(relocated as nat, ram as nat, 0, restore as nat) {
            Some(message) => r matches Err(m) && m@ == message,
            None => r is Ok,
        },
{
    if relocated > 0x10000 || ram > 0x10000 - relocated {
        let mut m = String::from_str("Restore data does not fit into RAM: ");
        m.append(decimal(relocated).as_str());
        m.append(" + ");
        m.append(decimal(ram).as_str());
        m.append(" bytes (max 65536)");
        return Err(m);
    }
    if restore > MAX_CODE_SIZE {
        let mut m = String::from_str("Restore code does not fit into the cartridge: ");
        m.append(decimal(0).as_str());
        m.append(" + ");
        m.append(decimal(restore).as_str());
        m.append(" bytes (max 524288)");
        return Err(m);
    }
    Ok(())
}

/// At most one number counts the banks of the files.
pub proof fn lemma_file_bank_count_unique(allocations: Seq<AllocationView>, a: nat, b: nat)
    requires
        is_file_bank_count(allocations, a),
        is_file_bank_count(allocations, b),
    ensures
        a == b,
{
    let banks = allocated_banks(allocations, allocations.len() as int);
    if a != 0 {
        let x = choose|x: usize|
            {
                &&& #[trigger] banks.contains(x)
                &&& forall|c: usize| banks.contains(c) ==> c <= x
                &&& a == if x < usize::MAX {
                    x + 1
                } else {
                    usize::MAX as int
                }
            };
        assert(banks.contains(x));
        if b != 0 {
            let y = choose|y: usize|
                {
                    &&& #[trigger] banks.contains(y)
                    &&& forall|c: usize| banks.contains(c) ==> c <= y
                    &&& b == if y < usize::MAX {
                        y + 1
                    } else {
                        usize::MAX as int
                    }
                };
            assert(banks.contains(y));
        }
    } else if b != 0 {
        let y = choose|y: usize|
            {
                &&& #[trigger] banks.contains(y)
                &&& forall|c: usize| banks.contains(c) ==> c <= y
                &&& b == if y < usize::MAX {
                    y + 1
                } else {
                    usize::MAX as int
                }
            };
        assert(banks.contains(y));
    }
}

/// Converter of snapshots to 16 KiB-banked cartridges.
pub struct ConvertSnapshotCRT {
    config: CrtConfig,
    extra_ram_blocks: Vec<(u16, u16)>,
}

impl ConvertSnapshotCRT {
    /// What of the configuration the conversion depends on.
    pub closed spec fn settings(&self) -> CrtSettings {
        settings_of(self.config)
    }

    /// The ranges of RAM, each an address and a length, that are given up as
    /// free memory.
    pub closed spec fn extra_blocks(&self) -> Seq<(u16, u16)> {
        self.extra_ram_blocks@
    }

    /// A converter with the given configuration.
    pub fn new(config: CrtConfig) -> (r: Self)
        ensures
            r.settings() == settings_of(config),
            r.extra_blocks() == Seq::<(u16, u16)>::empty(),
    {
        Self::with_extra_blocks(config, Vec::new())
    }

    /// A converter that also gives up the ranges `extra_ram_blocks`, each an
    /// address and a length, as free memory.
    pub fn with_extra_blocks(config: CrtConfig, extra_ram_blocks: Vec<(u16, u16)>) -> (r: Self)
        ensures
            r.settings() == settings_of(config),
            r.extra_blocks() == extra_ram_blocks@,
    {
        ConvertSnapshotCRT { config, extra_ram_blocks }
    }

    /// Whether load and save are served from the cartridge.
    pub fn serves_files(&self) -> (r: bool)
        ensures
            r == has_files(self.settings()),
    {
        self.config.include_dir.is_some() && self.config.patch_load_save
    }

    /// Where the trampoline is placed for a machine with the stack pointer
    /// `sp`.
    pub fn trampoline_address(&self, sp: u8) -> (r: u16)
        ensures
            r == trampoline_place(self.settings(), sp),
    {
        if self.config.auto_location || self.config.trampoline_address.is_none() {
            LoadSaveHook::auto_trampoline_address(sp)
        } else {
            match self.config.trampoline_address {
                Some(addr) => addr,
                None => TRAMPOLINE_PAGE1,
            }
        }
    }

    /// Builds the trampoline and writes it and the vectors into `ram`, where
    /// load and save are served from the cartridge.
    pub fn hook_image(&self, sp: u8, ram: &mut [u8; 65536], tools: &mut Toolchain) -> (r: Result<
        Option<LoadSaveHook>,
        String,
    >)
        ensures
            final(tools)@ == hooked(self.settings(), sp, old(ram)@, old(tools)@).1,
            match hooked(self.settings(), sp, old(ram)@, old(tools)@).0 {
                Ok((image, hook)) => r matches Ok(h) && hook_view(h) == hook && final(ram)@
                    == image,
                Err(e) => r matches Err(m) && m@ == e,
            },
    {
        reveal(hooked);
        if !self.serves_files() {
            return Ok(None);
        }
        let trampoline_addr = self.trampoline_address(sp);
        let mut hook = LoadSaveHook::new(sp, true, Some(trampoline_addr));
        match hook.hook_load_and_save(ram, tools) {
            Ok(()) => Ok(Some(hook)),
            Err(e) => Err(String::from_str("Failed to hook LOAD/SAVE: ").concat(e.as_str())),
        }
    }

    /// A generator of the restore routine for the given sizes.
    fn generator(streams: &RestoreStreams, relocated_size: usize, restore_code_size: usize) -> (r:
        MakeCRTAsm)
        requires
            streams.cia1@.len() == 20,
            streams.cia2@.len() == 20,
        ensures
            r@ == restore_parts(streams@, relocated_size, restore_code_size),
    {
        match MakeCRTAsm::new(
            copy_of(&streams.compressed.color),
            copy_of(&streams.compressed.vic),
            copy_of(&streams.compressed.sid),
            copy_of(&streams.cia1),
            copy_of(&streams.cia2),
            copy_of(&streams.compressed.zp),
            streams.block9_addr,
            streams.f8_ff,
            relocated_size,
            streams.compressed.ram.len(),
            restore_code_size,
            0,
        ) {
            Ok(g) => g,
            Err(_) => vstd::pervasive::unreached(),
        }
    }

    /// One pass over the restore routine.
    fn assemble_pass(streams: &RestoreStreams, relocated_size: usize, size: usize, tools: &mut Toolchain) -> (r:
        Result<Vec<u8>, String>)
        requires
            streams.cia1@.len() == 20,
            streams.cia2@.len() == 20,
        ensures
            (reply_view(r), final(tools)@) == restore_pass(
                streams@,
                relocated_size as nat,
                size as nat,
                old(tools)@,
            ),
    {
        match check_sizes(relocated_size, streams.compressed.ram.len(), size) {
            Ok(()) => {},
            Err(e) => {
                return Err(e);
            },
        }
        let crt_asm = Self::generator(streams, relocated_size, size);
        crt_asm.generate_restore_code_binary(tools)
    }

    /// Assembles the restore routine until its size is settled.
    pub fn settle_restore_code(streams: &RestoreStreams, relocated_size: usize, tools: &mut Toolchain) -> (r:
        Result<Vec<u8>, String>)
        requires
            streams.cia1@.len() == 20,
            streams.cia2@.len() == 20,
        ensures
            (reply_view(r), final(tools)@) == settled_restore_code(
                streams@,
                relocated_size as nat,
                old(tools)@,
            ),
    {
        let pass1 = match Self::assemble_pass(streams, relocated_size, 0, tools) {
            Ok(code) => code,
            Err(e) => {
                return Err(e);
            },
        };
        let pass2 = match Self::assemble_pass(streams, relocated_size, pass1.len(), tools) {
            Ok(code) => code,
            Err(e) => {
                return Err(e);
            },
        };
        if pass2.len() == pass1.len() {
            return Ok(pass2);
        }
        let pass3 = match Self::assemble_pass(streams, relocated_size, pass2.len(), tools) {
            Ok(code) => code,
            Err(e) => {
                return Err(e);
            },
        };
        if pass3.len() != pass2.len() {
            let mut m = String::from_str("Code size unstable: ");
            m.append(decimal(pass2.len()).as_str());
            m.append(" vs ");
            m.append(decimal(pass3.len()).as_str());
            return Err(m);
        }
        Ok(pass3)
    }

    /// Assembles the restore routine and the relocated decompressor.
    fn assemble_restore_code(streams: &RestoreStreams, relocated_size: usize, tools: &mut Toolchain) -> (r:
        Result<(Vec<u8>, Vec<u8>), String>)
        requires
            streams.cia1@.len() == 20,
            streams.cia2@.len() == 20,
        ensures
            final(tools)@ == restore_code(streams@, relocated_size as nat, old(tools)@).1,
            match restore_code(streams@, relocated_size as nat, old(tools)@).0 {
                Ok((restore, relocated)) => r matches Ok(code) && code.0@ == restore && code.1@
                    == relocated,
                Err(e) => r matches Err(m) && m@ == e,
            },
    {
        let final_restore_code = match Self::settle_restore_code(streams, relocated_size, tools) {
            Ok(code) => code,
            Err(e) => {
                return Err(e);
            },
        };
        let crt_asm_final = Self::generator(streams, relocated_size, final_restore_code.len());
        let final_relocated = match crt_asm_final.generate_relocated_decompressor(tools) {
            Ok(code) => code,
            Err(e) => {
                return Err(e);
            },
        };
        Ok((final_restore_code, final_relocated))
    }

    /// Assembles the code of the cartridge.
    pub fn assemble_code(streams: &RestoreStreams, hook: Option<LoadSaveHook>, tools: &mut Toolchain) -> (r:
        Result<EasyFlashCode, String>)
        requires
            streams.cia1@.len() == 20,
            streams.cia2@.len() == 20,
        ensures
            (code_view(r), final(tools)@) == cartridge_code(
                streams@,
                hook_view(hook),
                old(tools)@,
            ),
    {
        reveal(cartridge_code);
        let crt_asm_temp = Self::generator(streams, 0, 0);
        let relocated_binary = match crt_asm_temp.generate_relocated_decompressor(tools) {
            Ok(code) => code,
            Err(e) => {
                return Err(e);
            },
        };
        let relocated_size = relocated_binary.len();
        let load_save_code = match hook {
            Some(h) => {
                let mut h = h;
                match h.generate_load_save_rom_code(tools) {
                    Ok(code) => Some(code),
                    Err(e) => {
                        return Err(e);
                    },
                }
            },
            None => None,
        };
        match Self::assemble_restore_code(streams, relocated_size, tools) {
            Ok((restore, relocated)) => Ok(
                EasyFlashCode { restore, relocated, load_save: load_save_code },
            ),
            Err(e) => Err(e),
        }
    }

    /// Number of banks that `a + b + c` bytes fill or begin.
    pub fn banks_needed(a: usize, b: usize, c: usize) -> (r: usize)
        ensures
            r == banks_for((a + b + c) as nat),
    {
        let total: u128 = a as u128 + b as u128 + c as u128;
        ((total + 8191) / 8192) as usize
    }

    /// The banks for files: from `first` up to bank 63.
    pub fn banks_for_files(first: usize) -> (r: Vec<usize>)
        ensures
            r@ == available_banks(first as nat),
    {
        let mut banks: Vec<usize> = Vec::new();
        if first < FILE_BANK_LIMIT {
            let mut bank: usize = first;
            while bank < FILE_BANK_LIMIT
                invariant
                    first <= bank <= FILE_BANK_LIMIT,
                    banks@ == Seq::new((bank - first) as nat, |i: int| (first + i) as usize),
                decreases FILE_BANK_LIMIT - bank,
            {
                banks.push(bank);
                assert(banks@ =~= Seq::new(
                    (bank + 1 - first) as nat,
                    |i: int| (first + i) as usize,
                ));
                bank += 1;
            }
        }
        assert(banks@ =~= available_banks(first as nat));
        banks
    }

    /// Lays the files out in the banks from `first_bank` on.
    pub fn lay_out_files(&self, files: &[PRGFile], first_bank: usize) -> (r: Result<
        Option<FileLayout>,
        String,
    >)
        requires
            crate::file_system_manager::names_length(files@, files@.len() as int) <= usize::MAX,
        ensures
            layout_view(r) == file_layout(self.settings(), files@, first_bank as nat),
            r matches Ok(Some(layout)) ==> forall|i: int|
                0 <= i < layout.allocations@.len() ==> (#[trigger] layout.allocations@[i]).start_offset
                    <= BANK_SIZE_8K,
    {
        reveal(file_layout);
        let include_dir = match &self.config.include_dir {
            Some(dir) => dir,
            None => {
                return Ok(None);
            },
        };
        if files.len() == 0 {
            return Ok(None);
        }
        let fs_manager = FileSystemManager::new(include_dir.as_str());
        let available = Self::banks_for_files(first_bank);
        let allocations = match fs_manager.allocate_files(files, available.as_slice()) {
            Ok(allocations) => allocations,
            Err(e) => {
                return Err(e);
            },
        };
        let metadata = match fs_manager.generate_metadata(allocations.as_slice()) {
            Ok(metadata) => metadata,
            Err(e) => {
                return Err(e);
            },
        };
        let filenames = match fs_manager.generate_filenames(allocations.as_slice()) {
            Ok(filenames) => filenames,
            Err(e) => {
                return Err(e);
            },
        };
        Ok(Some(FileLayout { allocations, metadata, filenames }))
    }

    /// Number of banks that hold the files of a layout.
    pub fn count_file_banks(layout: &Option<FileLayout>) -> (r: usize)
        ensures
            r == file_bank_count(
                match layout {
                    Some(l) => Some(l@),
                    None => None,
                },
            ),
    {
        match layout {
            Some(l) => {
                let fs_manager = FileSystemManager::new("");
                let last = fs_manager.last_allocated_bank(l.allocations.as_slice());
                let count = match last {
                    Some(b) => if b < usize::MAX {
                        b + 1
                    } else {
                        usize::MAX
                    },
                    None => 0,
                };
                proof {
                    let views = allocation_views(l.allocations@);
                    let banks = allocated_banks(views, views.len() as int);
                    assert(views.len() == l.allocations@.len());
                    match last {
                        Some(b) => {
                            assert(banks.contains(b));
                        },
                        None => {},
                    }
                    assert(is_file_bank_count(views, count as nat));
                    lemma_file_bank_count_unique(
                        views,
                        count as nat,
                        choose|c: nat| is_file_bank_count(views, c),
                    );
                }
                count
            },
            None => 0,
        }
    }

    /// Builds the cartridge file from the assembled code, the compressed RAM
    /// and the layout of the files.
    pub fn build_cartridge(
        &self,
        code: EasyFlashCode,
        ram_lzsa: &[u8],
        layout: Option<FileLayout>,
        tools: &mut Toolchain,
    ) -> (r: Result<Vec<u8>, String>)
        requires
            layout matches Some(l) ==> forall|i: int|
                0 <= i < l.allocations@.len() ==> (#[trigger] l.allocations@[i]).start_offset
                    <= BANK_SIZE_8K,
        ensures
            (reply_view(r), final(tools)@) == cartridge(
                self.settings().cartridge_name,
                code@,
                ram_lzsa@,
                match layout {
                    Some(l) => Some(l@),
                    None => None,
                },
                old(tools)@,
            ),
    {
        reveal(cartridge);
        let restore_banks = Self::banks_needed(
            code.restore.len(),
            code.relocated.len(),
            ram_lzsa.len(),
        );
        let file_banks = Self::count_file_banks(&layout);
        let larger = if restore_banks < file_banks {
            file_banks
        } else {
            restore_banks
        };
        let planned = if larger < 1 {
            1
        } else {
            larger
        };
        let mut crt = match &self.config.cartridge_name {
            Some(name) => match CRTBuilder::new(CartridgeType::EasyFlash, planned, name.as_str()) {
                Ok(crt) => crt,
                Err(e) => {
                    return Err(e);
                },
            },
            None => match CRTBuilder::new(CartridgeType::EasyFlash, planned, "VICE Snapshot") {
                Ok(crt) => crt,
                Err(e) => {
                    return Err(e);
                },
            },
        };
        if code.restore.len() > BANK_SIZE_8K {
            let mut m = String::from_str("Data does not fit in bank (");
            m.append(decimal(code.restore.len()).as_str());
            m.append(" bytes + offset ");
            m.append(decimal(0).as_str());
            m.append(" > 8192)");
            return Err(m);
        }
        let mut image: Vec<u8> = Vec::new();
        append_all(&mut image, code.restore.as_slice());
        append_all(&mut image, code.relocated.as_slice());
        append_all(&mut image, ram_lzsa);
        assert(image@ =~= roml_image(code@, ram_lzsa@));
        let image_banks = Self::banks_needed(image.len(), 0, 0);
        assert(crt.roml() =~= empty_banks(planned as nat));
        assert(crt.romh() =~= no_high_windows(planned as nat));
        while crt.bank_count() < image_banks
            invariant
                crt.wf(),
                crt.kind() == CartridgeType::EasyFlash,
                crt.name() == upper_name(
                    match self.settings().cartridge_name {
                        Some(n) => n,
                        None => default_name(),
                    },
                ),
                planned <= crt.roml().len(),
                crt.roml().len() <= image_banks || crt.roml().len() == planned,
                crt.roml() == empty_banks(crt.roml().len()),
                crt.romh() == no_high_windows(crt.roml().len()),
            decreases image_banks - crt.roml().len(),
        {
            let ghost before = crt.roml().len();
            crt.add_bank();
            assert(crt.roml() =~= empty_banks(before + 1));
            assert(crt.romh() =~= no_high_windows(before + 1));
        }
        let ghost banks = crt.roml().len();
        crt.fill_image(image.as_slice());
        let romh_generator = MakeROMHAsm::new(
            code.restore.len(),
            code.load_save,
            match &layout {
                Some(l) => Some(copy_of(&l.metadata)),
                None => None,
            },
            match &layout {
                Some(l) => Some(copy_of(&l.filenames)),
                None => None,
            },
        );
        let romh_data = match romh_generator.generate_romh(tools) {
            Ok(window) => window,
            Err(e) => {
                return Err(e);
            },
        };
        match crt.set_bank_romh(0, romh_data.as_slice()) {
            Ok(()) => {},
            Err(e) => {
                return Err(e);
            },
        }
        assert(crt.romh() =~= high_windows(banks, romh_data@));
        match &layout {
            Some(l) => {
                let fs_manager = FileSystemManager::new("");
                match fs_manager.write_files_to_banks(&mut crt, l.allocations.as_slice()) {
                    Ok(()) => {},
                    Err(e) => {
                        return Err(e);
                    },
                }
            },
            None => {},
        }
        Ok(crt.generate_crt_data())
    }

    /// Converts the snapshot stream `input` to a cartridge file with the
    /// files `files`, as far as the results in `tools` reach. The files are
    /// left out where no directory of files is set.
    pub fn convert(&self, input: &[u8], files: &[PRGFile], tools: &mut Toolchain) -> (r: Result<
        Vec<u8>,
        String,
    >)
        requires
            crate::file_system_manager::names_length(files@, files@.len() as int) <= usize::MAX,
        ensures
            (reply_view(r), final(tools)@) == crt_conversion(
                self.settings(),
                self.extra_blocks(),
                input@,
                files@,
                old(tools)@,
            ),
    {
        let raw = copy_range(input, 0, input.len());
        assert(raw@ =~= input@);
        let parser = ParseVSF::new(raw);
        let snap = match parser.parse_import() {
            Ok(snap) => snap,
            Err(e) => {
                return Err(String::from_str("Failed to parse VSF: ").concat(e.as_str()));
            },
        };
        let mut ram: [u8; 65536] = *snap.mem.ram;
        zero_extra_blocks(&mut ram, self.extra_ram_blocks.as_slice());
        let load_save_hook = match self.hook_image(snap.cpu.sp, &mut ram, tools) {
            Ok(hook) => hook,
            Err(e) => {
                return Err(e);
            },
        };
        let streams = match prepare_streams(&parser, &snap, ram, tools) {
            Ok(streams) => streams,
            Err(e) => {
                return Err(e);
            },
        };
        let code = match Self::assemble_code(&streams, load_save_hook, tools) {
            Ok(code) => code,
            Err(e) => {
                return Err(e);
            },
        };
        let restore_banks = Self::banks_needed(
            code.restore.len(),
            code.relocated.len(),
            streams.compressed.ram.len(),
        );
        let layout = match self.lay_out_files(files, restore_banks) {
            Ok(layout) => layout,
            Err(e) => {
                return Err(e);
            },
        };
        self.build_cartridge(code, streams.compressed.ram.as_slice(), layout, tools)
    }
}

} // verus!

verus! {

/// A cartridge that was given no name is called `VICE SNAPSHOT`: its file
/// holds the name in bytes 32 to 44, and zeros from there to the end of the
/// header.
pub proof fn lemma_default_name(
    settings: CrtSettings,
    extra: Seq<(u16, u16)>,
    input: Seq<u8>,
    files: Seq<PRGFile>,
    st: ToolState,
)
    requires
        settings.cartridge_name is None,
    ensures
        crt_conversion(settings, extra, input, files, st).0 matches Ok(out) ==> out.len() >= 64
            && out.subrange(32, 45) == default_name_bytes() && out.subrange(45, 64) == repeat(
            0,
            19,
        ),
{
    reveal(cartridge);
    reveal_strlit("VICE Snapshot");
    lemma_upper_name_bytes(default_name(), default_name_bytes());
    assert forall|roml: Seq<Seq<u8>>, romh: Seq<Option<Seq<u8>>>|
        {
            let file = #[trigger] crt_file(
                CartridgeType::EasyFlash,
                default_name_bytes(),
                roml,
                romh,
            );
            file.len() >= 64 && file.subrange(32, 45) == default_name_bytes() && file.subrange(
                45,
                64,
            ) == repeat(0, 19)
        } by {
        lemma_default_name_in_file(CartridgeType::EasyFlash, roml, romh);
    }
}

} // verus!
