//! Conversion of a snapshot to a self-extracting program, and the steps that
//! all conversions share: patching the image and compressing the streams.

use vstd::prelude::*;
use vstd::string::*;
use crate::config::Config;
use crate::find_ram::{free_blocks, FindRam};
use crate::make_prg_asm::{program, MakePRGAsm, ProgramParts};
use crate::parse_vsf::{
    components_of, lzsa_compressed, parse_snapshot, C64Mem, C64Snapshot, Components,
    ComponentsView, MemView, ParseVSF, Sid6581, SnapshotView, VicII,
};
use crate::patch_mem::{
    allocation_message, allocations, block_size, first_failure, patched_image, PatchMem,
    BLOCK_COUNT,
};
use crate::toolchain::{reply_view, ReplyView, ToolState, Toolchain};

verus! {

/// The compressed streams.
#[derive(Debug)]
pub struct Compressed {
    pub ram: Vec<u8>,
    pub color: Vec<u8>,
    pub zp: Vec<u8>,
    pub vic: Vec<u8>,
    pub sid: Vec<u8>,
}

/// The compressed streams as spec values.
pub struct CompressedView {
    pub ram: Seq<u8>,
    pub color: Seq<u8>,
    pub zp: Seq<u8>,
    pub vic: Seq<u8>,
    pub sid: Seq<u8>,
}

impl View for Compressed {
    type V = CompressedView;

    open spec fn view(&self) -> CompressedView {
        CompressedView {
            ram: self.ram@,
            color: self.color@,
            zp: self.zp@,
            vic: self.vic@,
            sid: self.sid@,
        }
    }
}

/// `snap` with `ram` as its RAM.
pub open spec fn with_ram(snap: SnapshotView, ram: Seq<u8>) -> SnapshotView {
    SnapshotView { mem: MemView { ram, ..snap.mem }, ..snap }
}

/// What patching gives for a snapshot whose image to patch is `ram`: the
/// snapshot with the patched image and the address of block 9, or the
/// patcher's message, which names the first block that the image has no
/// room for and begins with `Failed to allocate block`.
pub open spec fn patched(snap: SnapshotView, ram: Seq<u8>) -> Result<(SnapshotView, u16), Seq<char>> {
    match allocations(free_blocks(ram), BLOCK_COUNT as int) {
        Some((blocks, _)) => Ok((with_ram(snap, patched_image(ram, snap, blocks)), blocks[8].address)),
        None => {
            let number = first_failure(free_blocks(ram), 0);
            Err(allocation_message(number, block_size(number - 1)))
        },
    }
}

/// What compressing one stream gives; a failure names the stream.
pub open spec fn compressed_stream(st: ToolState, data: Seq<u8>, failure: Seq<char>) -> (
    ReplyView,
    ToolState,
) {
    let (reply, after) = lzsa_compressed(st, data);
    (
        match reply {
            Ok(bytes) => Ok(bytes),
            Err(message) => Err(failure + message),
        },
        after,
    )
}

/// What compressing the streams gives in tool state `st`, and the state
/// after it. RAM, color memory, zero page, video chip and sound chip are
/// compressed in this order; the register blocks of the interface adapters
/// are not compressed.
pub open spec fn compressed_streams(c: ComponentsView, st: ToolState) -> (
    Result<CompressedView, Seq<char>>,
    ToolState,
) {
    let (ram, st1) = compressed_stream(st, c.ram, "Failed to compress RAM: "@);
    let (color, st2) = compressed_stream(st1, c.color, "Failed to compress color RAM: "@);
    let (zp, st3) = compressed_stream(st2, c.zp, "Failed to compress zero page: "@);
    let (vic, st4) = compressed_stream(st3, c.vic, "Failed to compress VIC: "@);
    let (sid, st5) = compressed_stream(st4, c.sid, "Failed to compress SID: "@);
    if ram is Err {
        (Err(ram->Err_0), st1)
    } else if color is Err {
        (Err(color->Err_0), st2)
    } else if zp is Err {
        (Err(zp->Err_0), st3)
    } else if vic is Err {
        (Err(vic->Err_0), st4)
    } else if sid is Err {
        (Err(sid->Err_0), st5)
    } else {
        (
            Ok(
                CompressedView {
                    ram: ram->Ok_0,
                    color: color->Ok_0,
                    zp: zp->Ok_0,
                    vic: vic->Ok_0,
                    sid: sid->Ok_0,
                },
            ),
            st5,
        )
    }
}

/// What the conversion of the stream `input` to a program gives in tool
/// state `st`, and the state after it.
///
/// The stream is decoded, the image patched, the streams cut out of the
/// patched snapshot and compressed, and the program built from them.
pub open spec fn prg_conversion(work_path: Seq<char>, input: Seq<u8>, st: ToolState) -> (
    ReplyView,
    ToolState,
) {
    match parse_snapshot(input) {
        Err(e) => (Err("Failed to parse VSF: "@ + e), st),
        Ok(snap) => {
            let (streams, st1) = restore_streams(snap, snap.mem.ram, st);
            match streams {
                Err(e) => (Err(e), st1),
                Ok(s) => {
                    let (prg, st2) = program(
                        ProgramParts {
                            color: s.compressed.color,
                            vic: s.compressed.vic,
                            sid: s.compressed.sid,
                            cia1: s.cia1,
                            cia2: s.cia2,
                            zp: s.compressed.zp,
                            ram: s.compressed.ram,
                            block9: s.block9_addr,
                            work_path,
                        },
                        st1,
                    );
                    (
                        match prg {
                            Ok(bytes) => Ok(bytes),
                            Err(e) => Err("Failed to generate PRG: "@ + e),
                        },
                        st2,
                    )
                },
            }
        },
    }
}

/// The bytes of `$F8..=$FF`.
pub fn zero_page_tail(ram: &[u8; 65536]) -> (r: [u8; 8])
    ensures
        r@ == ram@.subrange(0xF8, 0x100),
{
    let mut f8_ff = [0u8; 8];
    crate::bytes::write_bytes(&mut f8_ff, 0, vstd::slice::slice_subrange(ram.as_slice(), 0xF8, 0x100));
    assert(f8_ff@ =~= ram@.subrange(0xF8, 0x100));
    f8_ff
}

/// Patches `ram`, the image of `snap` as it is to be compressed, and returns
/// the snapshot with the patched image and the address of block 9.
pub fn patch_snapshot(snap: &C64Snapshot, ram: [u8; 65536]) -> (r: Result<(C64Snapshot, u16), String>)
    ensures
        match patched(snap@, ram@) {
            Ok((image, block9)) => r matches Ok(done) && done.0@ == image && done.1 == block9,
            Err(e) => r matches Err(m) && m@ == e,
        },
{
    let mut ram = ram;
    let mut ram_finder = FindRam::new(&ram);
    let patch_mem = match PatchMem::new(snap, &mut ram, &mut ram_finder) {
        Ok(patch_mem) => patch_mem,
        Err(e) => {
            return Err(e.message());
        },
    };
    let color_ram: [u8; 1024] = *snap.vic.color_ram;
    let patched_snap = C64Snapshot {
        cpu: snap.cpu,
        mem: C64Mem {
            cpu_port_data: snap.mem.cpu_port_data,
            cpu_port_dir: snap.mem.cpu_port_dir,
            ram: Box::new(ram),
        },
        vic: VicII { registers: snap.vic.registers, color_ram: Box::new(color_ram) },
        cia1: snap.cia1,
        cia2: snap.cia2,
        sid: Sid6581 { regs_25: snap.sid.regs_25 },
    };
    Ok((patched_snap, patch_mem.get_block9_addr()))
}

/// Compresses one stream; a failure names the stream.
fn compress_stream(parser: &ParseVSF, tools: &mut Toolchain, data: &[u8], failure: &str) -> (r:
    Result<Vec<u8>, String>)
    ensures
        (reply_view(r), final(tools)@) == compressed_stream(old(tools)@, data@, failure@),
{
    match parser.compress_lzsa(tools, data) {
        Ok(bytes) => Ok(bytes),
        Err(e) => Err(String::from_str(failure).concat(e.as_str())),
    }
}

/// The view of the compressed streams or a message.
pub open spec fn compressed_view(r: Result<Compressed, String>) -> Result<CompressedView, Seq<char>> {
    match r {
        Ok(c) => Ok(c@),
        Err(m) => Err(m@),
    }
}

/// Compresses the streams.
pub fn compress_components(parser: &ParseVSF, components: &Components, tools: &mut Toolchain) -> (r:
    Result<Compressed, String>)
    ensures
        (compressed_view(r), final(tools)@) == compressed_streams(components@, old(tools)@),
{
    let ram = match compress_stream(
        parser,
        tools,
        components.ram.as_slice(),
        "Failed to compress RAM: ",
    ) {
        Ok(bytes) => bytes,
        Err(e) => {
            return Err(e);
        },
    };
    let color = match compress_stream(
        parser,
        tools,
        components.color.as_slice(),
        "Failed to compress color RAM: ",
    ) {
        Ok(bytes) => bytes,
        Err(e) => {
            return Err(e);
        },
    };
    let zp = match compress_stream(
        parser,
        tools,
        components.zp.as_slice(),
        "Failed to compress zero page: ",
    ) {
        Ok(bytes) => bytes,
        Err(e) => {
            return Err(e);
        },
    };
    let vic = match compress_stream(
        parser,
        tools,
        components.vic.as_slice(),
        "Failed to compress VIC: ",
    ) {
        Ok(bytes) => bytes,
        Err(e) => {
            return Err(e);
        },
    };
    let sid = match compress_stream(
        parser,
        tools,
        components.sid.as_slice(),
        "Failed to compress SID: ",
    ) {
        Ok(bytes) => bytes,
        Err(e) => {
            return Err(e);
        },
    };
    Ok(Compressed { ram, color, zp, vic, sid })
}

/// Converter of snapshots to self-extracting programs.
pub struct ConvertSnapshot {
    config: Config,
}

impl ConvertSnapshot {
    /// The working directory of the converter.
    pub closed spec fn work_path(&self) -> Seq<char> {
        self.config.work_path@
    }

    /// A converter with the given configuration.
    pub fn new(config: Config) -> (r: Self)
        ensures
            r.work_path() == config.work_path@,
    {
        ConvertSnapshot { config }
    }

    /// Converts the snapshot stream `input` to a program, as far as the
    /// results in `tools` reach.
    ///
    /// Where a result is missing, the conversion fails and `tools` holds the
    /// request to run; with its result added to the list, the conversion
    /// gets further.
    pub fn convert(&self, input: &[u8], tools: &mut Toolchain) -> (r: Result<Vec<u8>, String>)
        ensures
            (reply_view(r), final(tools)@) == prg_conversion(self.work_path(), input@, old(tools)@),
    {
        let raw = crate::bytes::copy_range(input, 0, input.len());
        assert(raw@ =~= input@);
        let parser = ParseVSF::new(raw);
        let snap = match parser.parse_import() {
            Ok(snap) => snap,
            Err(e) => {
                return Err(String::from_str("Failed to parse VSF: ").concat(e.as_str()));
            },
        };
        let ram: [u8; 65536] = *snap.mem.ram;
        let streams = match prepare_streams(&parser, &snap, ram, tools) {
            Ok(streams) => streams,
            Err(e) => {
                return Err(e);
            },
        };
        let prg_maker = match MakePRGAsm::new(
            streams.compressed.color,
            streams.compressed.vic,
            streams.compressed.sid,
            streams.cia1,
            streams.cia2,
            streams.compressed.zp,
            streams.compressed.ram,
            streams.block9_addr,
            streams.f8_ff,
            &self.config,
        ) {
            Ok(maker) => maker,
            Err(e) => {
                return Err(String::from_str("Failed to initialize PRG maker: ").concat(e.as_str()));
            },
        };
        match prg_maker.generate_prg(tools) {
            Ok(bytes) => Ok(bytes),
            Err(e) => Err(String::from_str("Failed to generate PRG: ").concat(e.as_str())),
        }
    }
}

} // verus!

verus! {

/// What a cartridge is built from: the compressed streams, the register
/// blocks of the interface adapters, the address of block 9, and the bytes
/// of `$F8..=$FF`.
#[derive(Debug)]
pub struct RestoreStreams {
    pub compressed: Compressed,
    pub cia1: Vec<u8>,
    pub cia2: Vec<u8>,
    pub block9_addr: u16,
    pub f8_ff: [u8; 8],
}

/// The same as spec values.
pub struct StreamsView {
    pub compressed: CompressedView,
    pub cia1: Seq<u8>,
    pub cia2: Seq<u8>,
    pub block9_addr: u16,
    pub f8_ff: Seq<u8>,
}

impl View for RestoreStreams {
    type V = StreamsView;

    open spec fn view(&self) -> StreamsView {
        StreamsView {
            compressed: self.compressed@,
            cia1: self.cia1@,
            cia2: self.cia2@,
            block9_addr: self.block9_addr,
            f8_ff: self.f8_ff@,
        }
    }
}

/// The view of streams or a message.
pub open spec fn streams_view(r: Result<RestoreStreams, String>) -> Result<StreamsView, Seq<char>> {
    match r {
        Ok(s) => Ok(s@),
        Err(m) => Err(m@),
    }
}

/// `ram` with the first `k` of the ranges `extra`, each an address and a
/// length, set to zero; a range ends with the address space at the latest.
pub open spec fn zeroed(ram: Seq<u8>, extra: Seq<(u16, u16)>, k: int) -> Seq<u8>
    decreases k,
{
    if k <= 0 {
        ram
    } else {
        let start = extra[k - 1].0 as int;
        let end = if start + extra[k - 1].1 < 65536 {
            start + extra[k - 1].1
        } else {
            65536
        };
        crate::bytes::overlay(
            zeroed(ram, extra, k - 1),
            start,
            crate::bytes::repeat(0, (end - start) as nat),
        )
    }
}

/// What a cartridge is built from, for a snapshot whose image to patch is
/// `ram`, in tool state `st`; and the state after it. The image is patched,
/// and the streams are cut out of the patched snapshot and compressed.
#[verifier::opaque]
pub open spec fn restore_streams(snap: SnapshotView, ram: Seq<u8>, st: ToolState) -> (
    Result<StreamsView, Seq<char>>,
    ToolState,
) {
    match patched(snap, ram) {
        Err(e) => (Err(e), st),
        Ok((patched_snap, block9_addr)) => {
            let parts = components_of(patched_snap);
            let (compressed, after) = compressed_streams(parts, st);
            (
                match compressed {
                    Err(e) => Err(e),
                    Ok(c) => Ok(
                        StreamsView {
                            compressed: c,
                            cia1: parts.cia1,
                            cia2: parts.cia2,
                            block9_addr,
                            f8_ff: snap.mem.ram.subrange(0xF8, 0x100),
                        },
                    ),
                },
                after,
            )
        },
    }
}

/// Sets the ranges `extra`, each an address and a length, to zero.
pub fn zero_extra_blocks(ram: &mut [u8; 65536], extra: &[(u16, u16)])
    ensures
        final(ram)@ == zeroed(old(ram)@, extra@, extra@.len() as int),
{
    let mut k: usize = 0;
    while k < extra.len()
        invariant
            0 <= k <= extra@.len(),
            ram@ == zeroed(old(ram)@, extra@, k as int),
        decreases extra@.len() - k,
    {
        let start = extra[k].0 as usize;
        let end = if start + (extra[k].1 as usize) < 65536 {
            start + extra[k].1 as usize
        } else {
            65536
        };
        let ghost before = ram@;
        let mut i: usize = start;
        while i < end
            invariant
                start <= i <= end <= 65536,
                ram@.len() == 65536,
                forall|j: int|
                    0 <= j < 65536 ==> #[trigger] ram@[j] == if start <= j < i {
                        0u8
                    } else {
                        before[j]
                    },
            decreases end - i,
        {
            ram[i] = 0;
            i += 1;
        }
        assert(ram@ =~= crate::bytes::overlay(
            before,
            start as int,
            crate::bytes::repeat(0, (end - start) as nat),
        ));
        k += 1;
    }
}

/// Patches the image `ram` of `snap`, cuts out the streams and compresses
/// them.
pub fn prepare_streams(parser: &ParseVSF, snap: &C64Snapshot, ram: [u8; 65536], tools: &mut Toolchain) -> (r:
    Result<RestoreStreams, String>)
    ensures
        (streams_view(r), final(tools)@) == restore_streams(snap@, ram@, old(tools)@),
        r matches Ok(s) ==> s.cia1@.len() == 20 && s.cia2@.len() == 20,
{
    reveal(restore_streams);
    let f8_ff = zero_page_tail(&snap.mem.ram);
    let (patched_snap, block9_addr) = match patch_snapshot(snap, ram) {
        Ok(done) => done,
        Err(e) => {
            return Err(e);
        },
    };
    let components = parser.extract_ram(&patched_snap);
    let compressed = match compress_components(parser, &components, tools) {
        Ok(compressed) => compressed,
        Err(e) => {
            return Err(e);
        },
    };
    Ok(
        RestoreStreams {
            compressed,
            cia1: components.cia1,
            cia2: components.cia2,
            block9_addr,
            f8_ff,
        },
    )
}

} // verus!

verus! {

/// A program that a conversion returns begins with the load address `$0801`,
/// low byte first.
pub proof fn lemma_program_begins_with_load_address(work_path: Seq<char>, input: Seq<u8>, st: ToolState)
    ensures
        prg_conversion(work_path, input, st).0 matches Ok(bytes) ==> bytes.len() >= 2 && bytes[0]
            == 0x01 && bytes[1] == 0x08,
{
    reveal(restore_streams);
}

/// An image without a run of 32 equal bytes in the scanned window has no room
/// for the first block: the conversion fails with the message that names
/// block 1, and no tool is asked for anything.
pub proof fn lemma_no_free_memory(work_path: Seq<char>, input: Seq<u8>, st: ToolState)
    requires
        parse_snapshot(input) is Ok,
        free_blocks(parse_snapshot(input)->Ok_0.mem.ram).len() == 0,
    ensures
        prg_conversion(work_path, input, st) == (
            Err::<Seq<u8>, Seq<char>>(allocation_message(1, 48)),
            st,
        ),
        allocation_message(1, 48) == "Failed to allocate block "@ + crate::text::decimal_chars(1)
            + " ("@ + crate::text::decimal_chars(48) + " bytes)"@,
{
    reveal(restore_streams);
    let free = free_blocks(parse_snapshot(input)->Ok_0.mem.ram);
    assert(!crate::find_ram::can_allocate(free, 48));
    assert(allocations(free, 0) is Some);
    assert(allocations(free, 1) is None);
    crate::patch_mem::lemma_allocations_stay_failed(free, 1, BLOCK_COUNT as int);
    assert(first_failure(free, 0) == 1);
}

/// Patching fails exactly if the image has no room for one of the ten
/// blocks, and then names the first such block; the message begins with the
/// words that mark a shortage of free memory.
pub proof fn lemma_patch_failure(snap: SnapshotView, ram: Seq<u8>)
    ensures
        patched(snap, ram) is Err <==> allocations(free_blocks(ram), BLOCK_COUNT as int) is None,
        patched(snap, ram) matches Err(m) ==> m == "Failed to allocate block "@
            + crate::text::decimal_chars(first_failure(free_blocks(ram), 0) as nat) + " ("@
            + crate::text::decimal_chars(block_size(first_failure(free_blocks(ram), 0) - 1) as nat)
            + if first_failure(free_blocks(ram), 0) >= 9 {
            " bytes). Try with a cleaner snapshot"@
        } else {
            " bytes)"@
        },
        patched(snap, ram) matches Err(m) ==> m.len() >= 25 && m.take(25)
            == "Failed to allocate block "@,
{
    reveal_strlit("Failed to allocate block ");
    if patched(snap, ram) is Err {
        let m = patched(snap, ram)->Err_0;
        let head = "Failed to allocate block "@;
        assert(m.take(25) =~= head);
    }
}

} // verus!

verus! {

/// The result of the tool run `k` places on from the next one.
pub open spec fn reply_ahead(st: ToolState, k: int) -> ReplyView {
    st.replies[st.cursor + k]
}

/// Where the image has room for the ten blocks and the tools do their work,
/// the conversion gives a program.
///
/// Seven tool runs are made: RAM, color memory, zero page, video chip and
/// sound chip are compressed, then the relocated decompressor is assembled,
/// which must fit into 256 bytes, and the loader. The program is the load
/// address `$0801` and the loader: it is two bytes longer than what the
/// assembler returns for the loader.
pub proof fn lemma_program_when_tools_succeed(work_path: Seq<char>, input: Seq<u8>, st: ToolState)
    requires
        parse_snapshot(input) is Ok,
        allocations(free_blocks(parse_snapshot(input)->Ok_0.mem.ram), BLOCK_COUNT as int) is Some,
        st.waiting is None,
        st.cursor + 7 <= st.replies.len(),
        forall|k: int| 0 <= k < 7 ==> #[trigger] reply_ahead(st, k) is Ok,
        reply_ahead(st, 5)->Ok_0.len() <= 256,
    ensures
        prg_conversion(work_path, input, st) == (
            Ok::<Seq<u8>, Seq<char>>(seq![0x01u8, 0x08u8] + reply_ahead(st, 6)->Ok_0),
            ToolState { cursor: st.cursor + 7, ..st },
        ),
        prg_conversion(work_path, input, st).0->Ok_0.len() == 2 + reply_ahead(st, 6)->Ok_0.len(),
{
    reveal(restore_streams);
    assert(reply_ahead(st, 0) is Ok);
    assert(reply_ahead(st, 1) is Ok);
    assert(reply_ahead(st, 2) is Ok);
    assert(reply_ahead(st, 3) is Ok);
    assert(reply_ahead(st, 4) is Ok);
    assert(reply_ahead(st, 5) is Ok);
    assert(reply_ahead(st, 6) is Ok);
}

} // verus!
