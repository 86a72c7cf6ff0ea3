//! Memory patcher.
//!
//! The loader that rebuilds a snapshot on the machine runs in the stack page
//! and uses the top of the zero page and the vector tail, yet in the end these
//! must hold the snapshot's own bytes. The patcher moves those bytes into ten
//! free blocks of the image and writes three cooperating 6502 routines:
//!
//! - block 9 copies the stack page and the vector tail back from blocks 1 to
//!   8, refills those blocks with their run bytes, restores `$F8..=$FF` and
//!   jumps to block 10;
//! - block 10 restores the stack pointer, refills block 9, restores the port
//!   direction register, pushes the interrupt-return frame and jumps into the
//!   stack page;
//! - the routine in the stack page refills block 10, brings the interrupt
//!   sources and timers back, restores the port and the registers and returns
//!   from interrupt into the snapshot's program.

use vstd::prelude::*;
use vstd::string::*;
use crate::bytes::{append_range, hi, lo, overlay, write_bytes};
use crate::find_ram::{
    after_allocate, best_fit_index, can_allocate, FindRam, RamBlock, SCAN_END, SCAN_START,
};
use crate::parse_vsf::{C64Snapshot, SnapshotView};
use crate::text::{decimal, decimal_chars};

verus! {

/// Why patching failed.
#[derive(Debug)]
pub enum PatchError {
    AllocationFailed(String),
    StackTooLow(String),
    CodeTooLarge(String),
}

/// One region taken from the free list.
#[derive(Debug, Clone, Copy, PartialEq, Eq, Structural)]
pub struct BlockAllocation {
    pub address: u16,
    pub original_value: u8,
    pub size: u16,
}

/// Number of blocks that a patch takes.
pub const BLOCK_COUNT: usize = 10;

/// Length of the routine in block 9.
pub const BLOCK9_SIZE: u16 = 230;

/// Length of the routine in block 10.
pub const BLOCK10_SIZE: u16 = 35;

/// Bytes kept free between the routine in the stack page and the stack
/// pointer.
pub const SAFETY_MARGIN: u16 = 6;

/// Size of block `k`, counted from 0.
pub open spec fn block_size(k: int) -> u16 {
    if k == 0 {
        48
    } else if k == 1 {
        40
    } else if k < 8 {
        32
    } else if k == 8 {
        BLOCK9_SIZE
    } else {
        BLOCK10_SIZE
    }
}

/// `LDX #last; loop: LDA src,X; STA dst,X; DEX; BPL loop`: copies
/// `last + 1` bytes from `src` to `dst`.
pub open spec fn copy_loop(src: u16, dst: u16, last: u8) -> Seq<u8> {
    seq![0xA2, last, 0xBD, lo(src), hi(src), 0x9D, lo(dst), hi(dst), 0xCA, 0x10, 0xF7]
}

/// `LDA #value; LDX #0; loop: STA addr,X; INX; CPX #size; BNE loop`: fills
/// `size` bytes at `addr` with `value`.
pub open spec fn fill_loop(addr: u16, value: u8, size: u8) -> Seq<u8> {
    seq![0xA9, value, 0xA2, 0x00, 0x9D, lo(addr), hi(addr), 0xE8, 0xE0, size, 0xD0, 0xF8]
}

/// `LDA #value; STA zp`.
pub open spec fn store_zp(value: u8, zp: u8) -> Seq<u8> {
    seq![0xA9, value, 0x85, zp]
}

/// `LDA #value; STA addr`.
pub open spec fn store_abs(value: u8, addr: u16) -> Seq<u8> {
    seq![0xA9, value, 0x8D, lo(addr), hi(addr)]
}

/// `LDA addr`.
pub open spec fn load_abs(addr: u16) -> Seq<u8> {
    seq![0xAD, lo(addr), hi(addr)]
}

/// `LDA #value; PHA`.
pub open spec fn push_value(value: u8) -> Seq<u8> {
    seq![0xA9, value, 0x48]
}

/// `JMP addr`.
pub open spec fn jump(addr: u16) -> Seq<u8> {
    seq![0x4C, lo(addr), hi(addr)]
}

/// The loops that copy the first 32 bytes of each of the first `k` blocks back
/// to the stack page.
pub open spec fn copy_loops(blocks: Seq<BlockAllocation>, k: int) -> Seq<u8>
    decreases k,
{
    if k <= 0 {
        Seq::empty()
    } else {
        copy_loops(blocks, k - 1) + copy_loop(
            blocks[k - 1].address,
            (0x0100 + 32 * (k - 1)) as u16,
            31,
        )
    }
}

/// The loops that refill each of the first `k` blocks with its run byte.
pub open spec fn fill_loops(blocks: Seq<BlockAllocation>, k: int) -> Seq<u8>
    decreases k,
{
    if k <= 0 {
        Seq::empty()
    } else {
        fill_loops(blocks, k - 1) + fill_loop(
            blocks[k - 1].address,
            blocks[k - 1].original_value,
            (blocks[k - 1].size % 256) as u8,
        )
    }
}

/// The stores that bring back the first `k` bytes from `$F8` on.
pub open spec fn zp_stores(f8_ff: Seq<u8>, k: int) -> Seq<u8>
    decreases k,
{
    if k <= 0 {
        Seq::empty()
    } else {
        zp_stores(f8_ff, k - 1) + store_zp(f8_ff[k - 1], (0xF8 + (k - 1)) as u8)
    }
}

/// The part of block 9 that restores the stack page and the vector tail and
/// refills blocks 1 to 8.
pub open spec fn block9_core(blocks: Seq<BlockAllocation>) -> Seq<u8> {
    copy_loops(blocks, 8) + copy_loop((blocks[0].address + 32) as u16, 0xFFF0, 15) + fill_loops(
        blocks,
        8,
    )
}

/// The routine in block 9: the core, the stores for `$F8..=$FF`, and the jump
/// to `next`.
pub open spec fn block9_code(blocks: Seq<BlockAllocation>, f8_ff: Seq<u8>, next: u16) -> Seq<u8> {
    block9_core(blocks) + zp_stores(f8_ff, 8) + jump(next)
}

/// The routine in block 10. It leaves the run byte of block 10 in the
/// accumulator and the size of block 10 in Y for the routine at `next`.
pub open spec fn block10_code(
    snap: SnapshotView,
    block9: BlockAllocation,
    block10_fill: u8,
    block10_size: u8,
    next: u16,
) -> Seq<u8> {
    seq![0xA2, snap.cpu.sp, 0x9A] + fill_loop(
        block9.address,
        block9.original_value,
        (block9.size % 256) as u8,
    ) + store_zp(snap.mem.cpu_port_dir, 0x00) + push_value(hi(snap.cpu.pc)) + push_value(
        lo(snap.cpu.pc),
    ) + push_value(snap.cpu.p) + seq![0xA9, block10_fill, 0xA0, block10_size] + jump(next)
}

/// The writes that enable the interrupts of one interface adapter, if the
/// snapshot had any enabled.
pub open spec fn enable_cia_irq(ier: u8, icr: u16) -> Seq<u8> {
    if ier != 0 {
        store_abs(ier | 0x80, icr)
    } else {
        Seq::empty()
    }
}

/// The routine in the stack page. On entry the accumulator holds the run byte
/// of block 10 and Y its size.
pub open spec fn restore_code(snap: SnapshotView, block10: BlockAllocation) -> Seq<u8> {
    seq![0x99, lo((block10.address - 1) as u16), hi((block10.address - 1) as u16), 0x88, 0xD0, 0xFA]
        + store_zp(0x35, 0x01) + store_abs(0x00, 0xD01A) + store_abs(0xFF, 0xD019) + load_abs(
        0xDC0D,
    ) + load_abs(0xDD0D) + store_abs(0xFF, 0xD019) + store_abs(
        snap.vic.registers[0x1A],
        0xD01A,
    ) + load_abs(0xDC0D) + load_abs(0xDD0D) + enable_cia_irq(snap.cia1.ier, 0xDC0D)
        + enable_cia_irq(snap.cia2.ier, 0xDD0D) + store_abs(snap.cia1.cra, 0xDC0E) + store_abs(
        snap.cia1.crb,
        0xDC0F,
    ) + store_abs(snap.cia2.cra, 0xDD0E) + store_abs(snap.cia2.crb, 0xDD0F) + store_zp(
        snap.mem.cpu_port_data,
        0x01,
    ) + seq![0xA2, snap.cpu.x, 0xA0, snap.cpu.y, 0xA9, snap.cpu.a, 0x40]
}

/// Where the routine of `len` bytes is placed in the stack page: so that it
/// ends `SAFETY_MARGIN` bytes below the stack pointer, or, where it does not
/// fit there, so that it ends with the page.
pub open spec fn code_start(sp: u8, len: int) -> int {
    let ideal_end = 0x0100 + if sp >= SAFETY_MARGIN {
        sp - SAFETY_MARGIN
    } else {
        0
    };
    if ideal_end - len < 0x0100 {
        0x0200 - len
    } else {
        ideal_end - len
    }
}

/// The bytes that block `k`, counted from 0, keeps: 32 bytes of the stack
/// page, and in block 0 the vector tail, in block 1 `$F8..=$FF` besides.
pub open spec fn saved_bytes(ram: Seq<u8>, k: int) -> Seq<u8> {
    if k == 0 {
        ram.subrange(0x0100, 0x0120) + ram.subrange(0xFFF0, 0x10000)
    } else if k == 1 {
        ram.subrange(0x0120, 0x0140) + ram.subrange(0x00F8, 0x0100)
    } else {
        ram.subrange(0x0100 + 32 * k, 0x0120 + 32 * k)
    }
}

/// `ram` after the first `k` blocks were filled with the bytes they keep.
pub open spec fn with_saved(ram: Seq<u8>, blocks: Seq<BlockAllocation>, k: int) -> Seq<u8>
    decreases k,
{
    if k <= 0 {
        ram
    } else {
        let prev = with_saved(ram, blocks, k - 1);
        overlay(prev, blocks[k - 1].address as int, saved_bytes(prev, k - 1))
    }
}

/// The image after patching: the routine for the stack page in its place, the
/// bytes of the stack page, vector tail and zero-page tail kept in blocks 1 to
/// 8, and the routines of blocks 9 and 10 in theirs.
pub open spec fn patched_image(
    ram: Seq<u8>,
    snap: SnapshotView,
    blocks: Seq<BlockAllocation>,
) -> Seq<u8> {
    let primary = restore_code(snap, blocks[9]);
    let start = code_start(snap.cpu.sp, primary.len() as int);
    let with_primary = overlay(ram, start, primary);
    let with_blocks = with_saved(with_primary, blocks, 8);
    let with_block9 = overlay(
        with_blocks,
        blocks[8].address as int,
        block9_code(blocks, snap.mem.ram.subrange(0xF8, 0x100), blocks[9].address),
    );
    overlay(
        with_block9,
        blocks[9].address as int,
        block10_code(
            snap,
            blocks[8],
            blocks[9].original_value,
            (blocks[9].size % 256) as u8,
            start as u16,
        ),
    )
}

/// The free list and the blocks taken after the first `k` requests, or `None`
/// if one of them could not be served.
pub open spec fn allocations(free: Seq<RamBlock>, k: int) -> Option<
    (Seq<BlockAllocation>, Seq<RamBlock>),
>
    decreases k,
{
    if k <= 0 {
        Some((Seq::empty(), free))
    } else {
        match allocations(free, k - 1) {
            None => None,
            Some((done, rest)) => {
                let size = block_size(k - 1);
                if can_allocate(rest, size) {
                    let i = best_fit_index(rest, size);
                    Some(
                        (
                            done.push(
                                BlockAllocation {
                                    address: rest[i].address,
                                    original_value: rest[i].value,
                                    size,
                                },
                            ),
                            after_allocate(rest, i, size),
                        ),
                    )
                } else {
                    None
                }
            },
        }
    }
}

/// The message for a request that could not be served: block `number`,
/// counted from 1, of `size` bytes.
pub open spec fn allocation_message(number: int, size: u16) -> Seq<char> {
    "Failed to allocate block "@ + decimal_chars(number as nat) + " ("@ + decimal_chars(
        size as nat,
    ) + if number >= 9 {
        " bytes). Try with a cleaner snapshot"@
    } else {
        " bytes)"@
    }
}

/// The blocks that a patch took, and the address of the routine that the
/// decompressor jumps to when it is done.
pub struct PatchMem {
    blocks: Vec<BlockAllocation>,
    block9_addr: u16,
}


/// The number, counted from 1, of the first request after the first `k` that
/// cannot be served, given that the first `k` can.
pub open spec fn first_failure(free: Seq<RamBlock>, k: int) -> int
    decreases BLOCK_COUNT - k,
{
    if k >= BLOCK_COUNT || allocations(free, k + 1) is None {
        k + 1
    } else {
        first_failure(free, k + 1)
    }
}

/// Once a request has failed, no later state exists.
pub proof fn lemma_allocations_stay_failed(free: Seq<RamBlock>, k: int, m: int)
    requires
        allocations(free, k) is None,
        k <= m,
    ensures
        allocations(free, m) is None,
    decreases m - k,
{
    if k < m {
        lemma_allocations_stay_failed(free, k, m - 1);
    }
}

/// Every block lies in the scanned window, with room for its size.
pub open spec fn blocks_in_window(blocks: Seq<BlockAllocation>) -> bool {
    forall|k: int|
        0 <= k < blocks.len() ==> SCAN_START <= (#[trigger] blocks[k]).address && blocks[k].address
            + blocks[k].size <= SCAN_END + 1
}

impl View for PatchMem {
    type V = Seq<BlockAllocation>;

    closed spec fn view(&self) -> Seq<BlockAllocation> {
        self.blocks@
    }
}

impl PatchError {
    /// The message, as a spec value.
    pub open spec fn text(&self) -> Seq<char> {
        match self {
            PatchError::AllocationFailed(s) => s@,
            PatchError::StackTooLow(s) => "Stack too low: "@ + s@,
            PatchError::CodeTooLarge(s) => "Code too large: "@ + s@,
        }
    }

    /// The message for the user. A shortage of free memory is reported as it
    /// is, so that the message begins with `Failed to allocate block`; the
    /// other failures name their kind before their detail.
    pub fn message(&self) -> (r: String)
        ensures
            r@ == self.text(),
    {
        match self {
            PatchError::AllocationFailed(s) => String::from_str(s.as_str()),
            PatchError::StackTooLow(s) => String::from_str("Stack too low: ").concat(s.as_str()),
            PatchError::CodeTooLarge(s) => String::from_str("Code too large: ").concat(s.as_str()),
        }
    }
}

fn push2(code: &mut Vec<u8>, a: u8, b: u8)
    ensures
        final(code)@ == old(code)@ + seq![a, b],
{
    code.push(a);
    code.push(b);
    assert(code@ =~= old(code)@ + seq![a, b]);
}

fn push3(code: &mut Vec<u8>, a: u8, b: u8, c: u8)
    ensures
        final(code)@ == old(code)@ + seq![a, b, c],
{
    code.push(a);
    code.push(b);
    code.push(c);
    assert(code@ =~= old(code)@ + seq![a, b, c]);
}

fn emit_copy_loop(code: &mut Vec<u8>, src: u16, dst: u16, last: u8)
    ensures
        final(code)@ == old(code)@ + copy_loop(src, dst, last),
{
    push2(code, 0xA2, last);
    push3(code, 0xBD, (src % 256) as u8, (src / 256) as u8);
    push3(code, 0x9D, (dst % 256) as u8, (dst / 256) as u8);
    push3(code, 0xCA, 0x10, 0xF7);
    assert(code@ =~= old(code)@ + copy_loop(src, dst, last));
}

fn emit_fill_loop(code: &mut Vec<u8>, addr: u16, value: u8, size: u8)
    ensures
        final(code)@ == old(code)@ + fill_loop(addr, value, size),
{
    push2(code, 0xA9, value);
    push2(code, 0xA2, 0x00);
    push3(code, 0x9D, (addr % 256) as u8, (addr / 256) as u8);
    push3(code, 0xE8, 0xE0, size);
    push2(code, 0xD0, 0xF8);
    assert(code@ =~= old(code)@ + fill_loop(addr, value, size));
}

fn emit_store_zp(code: &mut Vec<u8>, value: u8, zp: u8)
    ensures
        final(code)@ == old(code)@ + store_zp(value, zp),
{
    push2(code, 0xA9, value);
    push2(code, 0x85, zp);
    assert(code@ =~= old(code)@ + store_zp(value, zp));
}

fn emit_store_abs(code: &mut Vec<u8>, value: u8, addr: u16)
    ensures
        final(code)@ == old(code)@ + store_abs(value, addr),
{
    push2(code, 0xA9, value);
    push3(code, 0x8D, (addr % 256) as u8, (addr / 256) as u8);
    assert(code@ =~= old(code)@ + store_abs(value, addr));
}

fn emit_load_abs(code: &mut Vec<u8>, addr: u16)
    ensures
        final(code)@ == old(code)@ + load_abs(addr),
{
    push3(code, 0xAD, (addr % 256) as u8, (addr / 256) as u8);
}

fn emit_push_value(code: &mut Vec<u8>, value: u8)
    ensures
        final(code)@ == old(code)@ + push_value(value),
{
    push3(code, 0xA9, value, 0x48);
}

fn emit_jump(code: &mut Vec<u8>, addr: u16)
    ensures
        final(code)@ == old(code)@ + jump(addr),
{
    push3(code, 0x4C, (addr % 256) as u8, (addr / 256) as u8);
}

/// The length of the copy loops for `k` blocks.
proof fn lemma_copy_loops_len(blocks: Seq<BlockAllocation>, k: int)
    requires
        0 <= k,
    ensures
        copy_loops(blocks, k).len() == 11 * k,
    decreases k,
{
    if k > 0 {
        lemma_copy_loops_len(blocks, k - 1);
    }
}

/// The length of the fill loops for `k` blocks.
proof fn lemma_fill_loops_len(blocks: Seq<BlockAllocation>, k: int)
    requires
        0 <= k,
    ensures
        fill_loops(blocks, k).len() == 12 * k,
    decreases k,
{
    if k > 0 {
        lemma_fill_loops_len(blocks, k - 1);
    }
}

/// The length of the stores for `k` bytes.
proof fn lemma_zp_stores_len(f8_ff: Seq<u8>, k: int)
    requires
        0 <= k,
    ensures
        zp_stores(f8_ff, k).len() == 4 * k,
    decreases k,
{
    if k > 0 {
        lemma_zp_stores_len(f8_ff, k - 1);
    }
}

/// The routine of block 9 has the same length whatever it holds.
pub proof fn lemma_block9_len(blocks: Seq<BlockAllocation>, f8_ff: Seq<u8>, next: u16)
    ensures
        block9_code(blocks, f8_ff, next).len() == BLOCK9_SIZE,
{
    lemma_copy_loops_len(blocks, 8);
    lemma_fill_loops_len(blocks, 8);
    lemma_zp_stores_len(f8_ff, 8);
}

/// The routine of block 10 has the same length whatever it holds.
pub proof fn lemma_block10_len(
    snap: SnapshotView,
    block9: BlockAllocation,
    block10_fill: u8,
    block10_size: u8,
    next: u16,
)
    ensures
        block10_code(snap, block9, block10_fill, block10_size, next).len() == BLOCK10_SIZE,
{
}

/// The routine for the stack page is between 73 and 83 bytes long.
pub proof fn lemma_restore_code_len(snap: SnapshotView, block10: BlockAllocation)
    ensures
        73 <= restore_code(snap, block10).len() <= 83,
{
}

/// The bytes that block `k`, counted from 0, keeps.
fn collect_saved_bytes(ram: &[u8; 65536], k: usize) -> (r: Vec<u8>)
    requires
        k < 8,
    ensures
        r@ == saved_bytes(ram@, k as int),
        r@.len() == block_size(k as int),
{
    let mut out: Vec<u8> = Vec::new();
    if k == 0 {
        append_range(&mut out, ram.as_slice(), 0x0100, 0x0120);
        append_range(&mut out, ram.as_slice(), 0xFFF0, 0x10000);
    } else if k == 1 {
        append_range(&mut out, ram.as_slice(), 0x0120, 0x0140);
        append_range(&mut out, ram.as_slice(), 0x00F8, 0x0100);
    } else {
        append_range(&mut out, ram.as_slice(), 0x0100 + 32 * k, 0x0120 + 32 * k);
    }
    assert(out@ =~= saved_bytes(ram@, k as int));
    out
}

/// Size of block `k`, counted from 0.
pub fn size_of_block(k: usize) -> (r: u16)
    ensures
        r == block_size(k as int),
{
    if k == 0 {
        48
    } else if k == 1 {
        40
    } else if k < 8 {
        32
    } else if k == 8 {
        BLOCK9_SIZE
    } else {
        BLOCK10_SIZE
    }
}

/// The error for a request that could not be served.
fn allocation_error(number: usize, size: u16) -> (e: PatchError)
    ensures
        e matches PatchError::AllocationFailed(m) && m@ == allocation_message(number as int, size),
{
    let mut m = String::from_str("Failed to allocate block ");
    m.append(decimal(number).as_str());
    m.append(" (");
    m.append(decimal(size as usize).as_str());
    if number >= 9 {
        m.append(" bytes). Try with a cleaner snapshot");
    } else {
        m.append(" bytes)");
    }
    PatchError::AllocationFailed(m)
}

impl PatchMem {
    /// Address of the routine in block 9.
    pub closed spec fn block9_addr(&self) -> u16 {
        self.block9_addr
    }

    /// The core of block 9.
    pub fn generate_block9_core(blocks: &[BlockAllocation]) -> (code: Vec<u8>)
        requires
            blocks@.len() >= 8,
            blocks@[0].address + 32 <= u16::MAX,
        ensures
            code@ == block9_core(blocks@),
    {
        let mut code: Vec<u8> = Vec::new();
        let mut i: usize = 0;
        while i < 8
            invariant
                0 <= i <= 8,
                blocks@.len() >= 8,
                code@ == copy_loops(blocks@, i as int),
            decreases 8 - i,
        {
            let dst: u16 = 0x0100 + (i as u16) * 32;
            emit_copy_loop(&mut code, blocks[i].address, dst, 31);
            i += 1;
        }
        emit_copy_loop(&mut code, blocks[0].address + 32, 0xFFF0, 15);
        let ghost head = code@;
        let mut i: usize = 0;
        while i < 8
            invariant
                0 <= i <= 8,
                blocks@.len() >= 8,
                code@ == head + fill_loops(blocks@, i as int),
            decreases 8 - i,
        {
            emit_fill_loop(
                &mut code,
                blocks[i].address,
                blocks[i].original_value,
                (blocks[i].size % 256) as u8,
            );
            assert(code@ =~= head + fill_loops(blocks@, i + 1));
            i += 1;
        }
        code
    }

    /// The routine of block 9, which ends in a jump to `next`.
    pub fn generate_block9_final(blocks: &[BlockAllocation], f8_ff: &[u8; 8], next: u16) -> (code:
        Vec<u8>)
        requires
            blocks@.len() >= 8,
            blocks@[0].address + 32 <= u16::MAX,
        ensures
            code@ == block9_code(blocks@, f8_ff@, next),
            code@.len() == BLOCK9_SIZE,
    {
        let mut code = Self::generate_block9_core(blocks);
        let ghost head = code@;
        let mut i: usize = 0;
        while i < 8
            invariant
                0 <= i <= 8,
                code@ == head + zp_stores(f8_ff@, i as int),
            decreases 8 - i,
        {
            emit_store_zp(&mut code, f8_ff[i], 0xF8 + i as u8);
            assert(code@ =~= head + zp_stores(f8_ff@, i + 1));
            i += 1;
        }
        emit_jump(&mut code, next);
        proof {
            lemma_block9_len(blocks@, f8_ff@, next);
        }
        code
    }

    /// The routine of block 10, which ends in a jump to `next`.
    pub fn generate_block10(
        snap: &C64Snapshot,
        block9: BlockAllocation,
        block10_fill: u8,
        block10_size: u8,
        next: u16,
    ) -> (code: Vec<u8>)
        ensures
            code@ == block10_code(snap@, block9, block10_fill, block10_size, next),
            code@.len() == BLOCK10_SIZE,
    {
        let mut code: Vec<u8> = Vec::new();
        push3(&mut code, 0xA2, snap.cpu.sp, 0x9A);
        emit_fill_loop(
            &mut code,
            block9.address,
            block9.original_value,
            (block9.size % 256) as u8,
        );
        emit_store_zp(&mut code, snap.mem.cpu_port_dir, 0x00);
        emit_push_value(&mut code, (snap.cpu.pc / 256) as u8);
        emit_push_value(&mut code, (snap.cpu.pc % 256) as u8);
        emit_push_value(&mut code, snap.cpu.p);
        push2(&mut code, 0xA9, block10_fill);
        push2(&mut code, 0xA0, block10_size);
        emit_jump(&mut code, next);
        assert(code@ =~= block10_code(snap@, block9, block10_fill, block10_size, next));
        code
    }

    /// The routine for the stack page.
    pub fn generate_restore_code(snap: &C64Snapshot, block10: BlockAllocation) -> (code: Vec<u8>)
        requires
            block10.address >= 1,
        ensures
            code@ == restore_code(snap@, block10),
            73 <= code@.len() <= 83,
    {
        let mut code: Vec<u8> = Vec::new();
        let base: u16 = block10.address - 1;
        push3(&mut code, 0x99, (base % 256) as u8, (base / 256) as u8);
        push3(&mut code, 0x88, 0xD0, 0xFA);
        assert(code@ =~= seq![0x99u8, lo(base), hi(base), 0x88, 0xD0, 0xFA]);
        emit_store_zp(&mut code, 0x35, 0x01);
        emit_store_abs(&mut code, 0x00, 0xD01A);
        emit_store_abs(&mut code, 0xFF, 0xD019);
        emit_load_abs(&mut code, 0xDC0D);
        emit_load_abs(&mut code, 0xDD0D);
        emit_store_abs(&mut code, 0xFF, 0xD019);
        emit_store_abs(&mut code, snap.vic.registers[0x1A], 0xD01A);
        emit_load_abs(&mut code, 0xDC0D);
        emit_load_abs(&mut code, 0xDD0D);
        if snap.cia1.ier != 0 {
            emit_store_abs(&mut code, snap.cia1.ier | 0x80, 0xDC0D);
        }
        assert(code@ =~= seq![0x99u8, lo(base), hi(base), 0x88, 0xD0, 0xFA] + store_zp(0x35, 0x01)
            + store_abs(0x00, 0xD01A) + store_abs(0xFF, 0xD019) + load_abs(0xDC0D) + load_abs(
            0xDD0D,
        ) + store_abs(0xFF, 0xD019) + store_abs(snap.vic.registers@[0x1A], 0xD01A) + load_abs(
            0xDC0D,
        ) + load_abs(0xDD0D) + enable_cia_irq(snap.cia1.ier, 0xDC0D));
        let ghost head = code@;
        if snap.cia2.ier != 0 {
            emit_store_abs(&mut code, snap.cia2.ier | 0x80, 0xDD0D);
        }
        assert(code@ =~= head + enable_cia_irq(snap.cia2.ier, 0xDD0D));
        emit_store_abs(&mut code, snap.cia1.cra, 0xDC0E);
        emit_store_abs(&mut code, snap.cia1.crb, 0xDC0F);
        emit_store_abs(&mut code, snap.cia2.cra, 0xDD0E);
        emit_store_abs(&mut code, snap.cia2.crb, 0xDD0F);
        emit_store_zp(&mut code, snap.mem.cpu_port_data, 0x01);
        push3(&mut code, 0xA2, snap.cpu.x, 0xA0);
        push3(&mut code, snap.cpu.y, 0xA9, snap.cpu.a);
        code.push(0x40);
        assert(code@ =~= restore_code(snap@, block10));
        code
    }

    /// Where the routine for the stack page starts.
    pub fn place_restore_code(sp: u8, len: usize) -> (start: u16)
        requires
            len <= 256,
        ensures
            start == code_start(sp, len as int),
            0x0100 <= start,
            start + len <= 0x0200,
    {
        let below: u16 = if sp as u16 >= SAFETY_MARGIN {
            sp as u16 - SAFETY_MARGIN
        } else {
            0
        };
        let ideal_end: u16 = 0x0100 + below;
        if ideal_end < 0x0100 + len as u16 {
            0x0200 - len as u16
        } else {
            ideal_end - len as u16
        }
    }

    /// Takes the ten blocks from `ram_finder`, moves the bytes that the loader
    /// will overwrite into blocks 1 to 8, and writes the three routines into
    /// `ram`.
    ///
    /// Fails, with `ram` untouched, exactly if one of the ten requests cannot
    /// be served; the message names the first such block and its size.
    pub fn new(snap: &C64Snapshot, ram: &mut [u8; 65536], ram_finder: &mut FindRam) -> (r: Result<
        Self,
        PatchError,
    >)
        requires
            old(ram_finder).wf(),
        ensures
            final(ram_finder).wf(),
            final(ram_finder).image() == old(ram_finder).image(),
            match allocations(old(ram_finder)@, BLOCK_COUNT as int) {
                Some((blocks, free)) => {
                    &&& r matches Ok(pm)
                    &&& pm@ == blocks
                    &&& pm.block9_addr() == blocks[8].address
                    &&& final(ram)@ == patched_image(old(ram)@, snap@, blocks)
                    &&& final(ram_finder)@ == free
                },
                None => {
                    let number = first_failure(old(ram_finder)@, 0);
                    &&& 1 <= number <= BLOCK_COUNT
                    &&& r matches Err(PatchError::AllocationFailed(m))
                    &&& m@ == allocation_message(number, block_size(number - 1))
                    &&& final(ram)@ == old(ram)@
                    &&& allocations(old(ram_finder)@, number - 1) matches Some((_, free))
                    &&& final(ram_finder)@ == free
                },
            },
    {
        let ghost free0 = ram_finder@;
        let mut blocks: Vec<BlockAllocation> = Vec::new();
        let mut k: usize = 0;
        while k < BLOCK_COUNT
            invariant
                0 <= k <= BLOCK_COUNT,
                free0 == old(ram_finder)@,
                ram_finder.wf(),
                ram_finder.image() == old(ram_finder).image(),
                allocations(free0, k as int) == Some((blocks@, ram_finder@)),
                first_failure(free0, 0) == first_failure(free0, k as int),
                blocks@.len() == k,
                blocks_in_window(blocks@),
                forall|j: int| 0 <= j < k ==> (#[trigger] blocks@[j]).size == block_size(j),
                ram@ == old(ram)@,
            decreases BLOCK_COUNT - k,
        {
            let size = size_of_block(k);
            match ram_finder.allocate(size) {
                Some((address, value)) => {
                    blocks.push(BlockAllocation { address, original_value: value, size });
                },
                None => {
                    proof {
                        assert(allocations(free0, k + 1) is None);
                        lemma_allocations_stay_failed(free0, k + 1, BLOCK_COUNT as int);
                    }
                    return Err(allocation_error(k + 1, size));
                },
            }
            k += 1;
        }
        assert(allocations(free0, BLOCK_COUNT as int) == Some((blocks@, ram_finder@)));

        let mut f8_ff = [0u8; 8];
        let mut i: usize = 0;
        while i < 8
            invariant
                0 <= i <= 8,
                forall|j: int| 0 <= j < i ==> #[trigger] f8_ff@[j] == snap.mem.ram@[0xF8 + j],
            decreases 8 - i,
        {
            f8_ff[i] = snap.mem.ram[0xF8 + i];
            i += 1;
        }
        assert(f8_ff@ =~= snap.mem.ram@.subrange(0xF8, 0x100));

        let block9 = blocks[8];
        let block10 = blocks[9];
        let restore = Self::generate_restore_code(snap, block10);
        let start = Self::place_restore_code(snap.cpu.sp, restore.len());
        let block9_routine = Self::generate_block9_final(blocks.as_slice(), &f8_ff, block10.address);
        let block10_routine = Self::generate_block10(
            snap,
            block9,
            block10.original_value,
            (block10.size % 256) as u8,
            start,
        );

        write_bytes(ram, start as usize, restore.as_slice());
        let ghost with_primary = ram@;
        let mut k: usize = 0;
        while k < 8
            invariant
                0 <= k <= 8,
                blocks@.len() == BLOCK_COUNT,
                blocks_in_window(blocks@),
                forall|j: int| 0 <= j < BLOCK_COUNT ==> (#[trigger] blocks@[j]).size == block_size(j),
                ram@ == with_saved(with_primary, blocks@, k as int),
            decreases 8 - k,
        {
            let saved = collect_saved_bytes(ram, k);
            write_bytes(ram, blocks[k].address as usize, saved.as_slice());
            k += 1;
        }
        write_bytes(ram, block9.address as usize, block9_routine.as_slice());
        write_bytes(ram, block10.address as usize, block10_routine.as_slice());
        Ok(PatchMem { blocks, block9_addr: block9.address })
    }

    /// Address of the routine in block 9, which the decompressor jumps to
    /// when it is done.
    pub fn get_block9_addr(&self) -> (r: u16)
        ensures
            r == self.block9_addr(),
    {
        self.block9_addr
    }
}

} // verus!
