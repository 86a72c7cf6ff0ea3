//! What the restore routines do when they run.
//!
//! The routines that the patcher writes are run on the model of the
//! processor, from the state in which the decompressor leaves the machine to
//! the return into the snapshot's program.

use vstd::prelude::*;
use crate::bytes::{hi, lo, overlay};
use crate::find_ram::{
    after_allocate, best_fit_index, blocks_wf, can_allocate, filled, is_best_fit, RamBlock,
    SCAN_END, SCAN_START,
};
use crate::parse_vsf::{Cpu6510, SnapshotView};
use crate::patch_mem::{
    allocations, block10_code, block9_code, block_size, code_start, copy_loop, copy_loops, fill_loop,
    fill_loops, jump, patched_image, restore_code, saved_bytes, store_zp, with_saved, zp_stores,
    BlockAllocation, BLOCK_COUNT,
};
use crate::mos6502::{
    io_visible, lemma_branch_back, lemma_cpx, lemma_dex, lemma_inx, lemma_lda, lemma_lda_x,
    lemma_ldx, lemma_reaches_step, lemma_reaches_trans, lemma_sta_x, reaches, step, word_of,
    wrap_byte, Machine,
};

verus! {

/// The machine has its RAM, and the port hides the chips.
pub open spec fn plain(m: Machine) -> bool {
    m.ram.len() == 65536 && !io_visible(m.port)
}

/// A word is made of its bytes.
pub proof fn lemma_word_of_bytes(w: u16)
    ensures
        word_of(lo(w), hi(w)) == w,
{
}

/// The loop that copies `last + 1` bytes from `src` to `dst` lies at `at`.
pub open spec fn has_copy_loop(ram: Seq<u8>, at: int, src: u16, dst: u16, last: u8) -> bool {
    &&& ram[at] == 0xA2
    &&& ram[at + 1] == last
    &&& ram[at + 2] == 0xBD
    &&& ram[at + 3] == lo(src)
    &&& ram[at + 4] == hi(src)
    &&& ram[at + 5] == 0x9D
    &&& ram[at + 6] == lo(dst)
    &&& ram[at + 7] == hi(dst)
    &&& ram[at + 8] == 0xCA
    &&& ram[at + 9] == 0x10
    &&& ram[at + 10] == 0xF7
}

/// The loop that fills `size` bytes at `addr` with `value` lies at `at`.
pub open spec fn has_fill_loop(ram: Seq<u8>, at: int, addr: u16, value: u8, size: u8) -> bool {
    &&& ram[at] == 0xA9
    &&& ram[at + 1] == value
    &&& ram[at + 2] == 0xA2
    &&& ram[at + 3] == 0x00
    &&& ram[at + 4] == 0x9D
    &&& ram[at + 5] == lo(addr)
    &&& ram[at + 6] == hi(addr)
    &&& ram[at + 7] == 0xE8
    &&& ram[at + 8] == 0xE0
    &&& ram[at + 9] == size
    &&& ram[at + 10] == 0xD0
    &&& ram[at + 11] == 0xF8
}

/// The two ranges of addresses have no address in common.
pub open spec fn apart(a: int, a_len: int, b: int, b_len: int) -> bool {
    a + a_len <= b || b + b_len <= a
}

/// The range of addresses is RAM that the processor writes as RAM: it lies
/// in the address space and not in the processor port.
pub open spec fn is_ram_range(at: int, len: int) -> bool {
    2 <= at && at + len <= 65536
}

/// The machine `f` is `m` with the bytes of `[dst, dst + n)` taken from
/// `[src, src + n)` of `m`; the rest of RAM is the same.
pub open spec fn ram_copied(m: Machine, f: Machine, src: int, dst: int, n: int) -> bool {
    &&& f.ram.len() == m.ram.len()
    &&& forall|a: int|
        0 <= a < 65536 ==> #[trigger] f.ram[a] == if dst <= a < dst + n {
            m.ram[src + (a - dst)]
        } else {
            m.ram[a]
        }
}

/// The machine `f` is `m` with the bytes of `[addr, addr + n)` set to
/// `value`; the rest of RAM is the same.
pub open spec fn ram_filled(m: Machine, f: Machine, addr: int, n: int, value: u8) -> bool {
    &&& f.ram.len() == m.ram.len()
    &&& forall|a: int|
        0 <= a < 65536 ==> #[trigger] f.ram[a] == if addr <= a < addr + n {
            value
        } else {
            m.ram[a]
        }
}

/// The copy loop from its head on, with `k + 1` bytes left to copy.
#[verifier::rlimit(80)]
proof fn lemma_copy_loop_from(m: Machine, at: int, src: u16, dst: u16, last: u8, k: int) -> (f:
    Machine)
    requires
        plain(m),
        0 <= at,
        at + 11 < 65536,
        has_copy_loop(m.ram, at, src, dst, last),
        m.pc == at + 2,
        0 <= k <= last < 128,
        m.x == k,
        is_ram_range(src as int, last + 1),
        is_ram_range(dst as int, last + 1),
        apart(dst as int, last + 1, at, 11),
        apart(dst as int, last + 1, src as int, last + 1),
    ensures
        reaches(m, f),
        ram_copied(m, f, src as int, dst as int, k + 1),
        f == (Machine {
            ram: f.ram,
            a: m.ram[src as int],
            x: 0xFF,
            zero: false,
            negative: true,
            pc: (at + 11) as u16,
            ..m
        }),
    decreases k,
{
    lemma_word_of_bytes(src);
    lemma_word_of_bytes(dst);
    let m1 = step(m);
    lemma_lda_x(m, src);
    let m2 = step(m1);
    lemma_sta_x(m1, dst);
    let m3 = step(m2);
    lemma_dex(m2);
    let m4 = step(m3);
    lemma_branch_back(m3, 9);
    lemma_reaches_step(m);
    lemma_reaches_step(m1);
    lemma_reaches_step(m2);
    lemma_reaches_step(m3);
    lemma_reaches_trans(m, m1, m2);
    lemma_reaches_trans(m, m2, m3);
    lemma_reaches_trans(m, m3, m4);
    if k == 0 {
        assert(m3.x == 0xFF);
        assert(m4.pc == at + 11);
        assert(ram_copied(m, m4, src as int, dst as int, 1));
        m4
    } else {
        assert(m3.x == k - 1);
        assert(!m3.negative);
        assert(m4.pc == at + 2);
        let f = lemma_copy_loop_from(m4, at, src, dst, last, k - 1);
        lemma_reaches_trans(m, m4, f);
        assert(ram_copied(m, f, src as int, dst as int, k + 1));
        f
    }
}

/// The copy loop: `last + 1` bytes are copied from `src` to `dst`.
pub proof fn lemma_copy_loop(m: Machine, src: u16, dst: u16, last: u8) -> (f: Machine)
    requires
        plain(m),
        m.pc + 11 < 65536,
        has_copy_loop(m.ram, m.pc as int, src, dst, last),
        last < 128,
        is_ram_range(src as int, last + 1),
        is_ram_range(dst as int, last + 1),
        apart(dst as int, last + 1, m.pc as int, 11),
        apart(dst as int, last + 1, src as int, last + 1),
    ensures
        reaches(m, f),
        ram_copied(m, f, src as int, dst as int, last + 1),
        f == (Machine {
            ram: f.ram,
            a: m.ram[src as int],
            x: 0xFF,
            zero: false,
            negative: true,
            pc: (m.pc + 11) as u16,
            ..m
        }),
{
    let m1 = step(m);
    lemma_ldx(m, last);
    lemma_reaches_step(m);
    let f = lemma_copy_loop_from(m1, m.pc as int, src, dst, last, last as int);
    lemma_reaches_trans(m, m1, f);
    f
}

/// The fill loop from its head on, with `k` bytes filled.
#[verifier::rlimit(80)]
proof fn lemma_fill_loop_from(m: Machine, at: int, addr: u16, value: u8, size: u8, k: int) -> (f:
    Machine)
    requires
        plain(m),
        0 <= at,
        at + 12 < 65536,
        has_fill_loop(m.ram, at, addr, value, size),
        m.pc == at + 4,
        0 <= k < size,
        m.x == k,
        m.a == value,
        is_ram_range(addr as int, size as int),
        apart(addr as int, size as int, at, 12),
    ensures
        reaches(m, f),
        ram_filled(m, f, addr + k, size - k, value),
        f == (Machine {
            ram: f.ram,
            x: size,
            zero: true,
            negative: false,
            pc: (at + 12) as u16,
            ..m
        }),
    decreases size - k,
{
    lemma_word_of_bytes(addr);
    let m1 = step(m);
    lemma_sta_x(m, addr);
    let m2 = step(m1);
    lemma_inx(m1);
    let m3 = step(m2);
    lemma_cpx(m2, size);
    let m4 = step(m3);
    lemma_branch_back(m3, 8);
    lemma_reaches_step(m);
    lemma_reaches_step(m1);
    lemma_reaches_step(m2);
    lemma_reaches_step(m3);
    lemma_reaches_trans(m, m1, m2);
    lemma_reaches_trans(m, m2, m3);
    lemma_reaches_trans(m, m3, m4);
    if k + 1 == size {
        assert(m4.pc == at + 12);
        assert(ram_filled(m, m4, addr + k, 1, value));
        m4
    } else {
        assert(m4.pc == at + 4);
        let f = lemma_fill_loop_from(m4, at, addr, value, size, k + 1);
        lemma_reaches_trans(m, m4, f);
        assert(ram_filled(m, f, addr + k, size - k, value));
        f
    }
}

/// The fill loop: `size` bytes at `addr` are set to `value`.
pub proof fn lemma_fill_loop(m: Machine, addr: u16, value: u8, size: u8) -> (f: Machine)
    requires
        plain(m),
        m.pc + 12 < 65536,
        has_fill_loop(m.ram, m.pc as int, addr, value, size),
        size >= 1,
        is_ram_range(addr as int, size as int),
        apart(addr as int, size as int, m.pc as int, 12),
    ensures
        reaches(m, f),
        ram_filled(m, f, addr as int, size as int, value),
        f == (Machine {
            ram: f.ram,
            a: value,
            x: size,
            zero: true,
            negative: false,
            pc: (m.pc + 12) as u16,
            ..m
        }),
{
    let m1 = step(m);
    lemma_lda(m, value);
    let m2 = step(m1);
    lemma_ldx(m1, 0);
    lemma_reaches_step(m);
    lemma_reaches_step(m1);
    lemma_reaches_trans(m, m1, m2);
    let f = lemma_fill_loop_from(m2, m.pc as int, addr, value, size, 0);
    lemma_reaches_trans(m, m2, f);
    f
}

} // verus!

verus! {

/// What a patch starts from and what it takes: the snapshot, the image that
/// is patched, and the ten blocks.
pub struct Setup {
    pub snap: SnapshotView,
    pub ram0: Seq<u8>,
    pub blocks: Seq<BlockAllocation>,
}

/// Address `a` lies in block `k`.
pub open spec fn in_block(blocks: Seq<BlockAllocation>, k: int, a: int) -> bool {
    blocks[k].address <= a < blocks[k].address + blocks[k].size
}

/// The ten blocks have their sizes, lie in the scanned window, have no
/// address in common, and the image holds the run byte of each throughout
/// the block.
pub open spec fn layout_ok(blocks: Seq<BlockAllocation>, ram0: Seq<u8>) -> bool {
    &&& blocks.len() == BLOCK_COUNT
    &&& forall|k: int| 0 <= k < BLOCK_COUNT ==> (#[trigger] blocks[k]).size == block_size(k)
    &&& forall|k: int|
        0 <= k < BLOCK_COUNT ==> SCAN_START <= (#[trigger] blocks[k]).address && blocks[k].address
            + blocks[k].size <= SCAN_END + 1
    &&& forall|j: int, k: int|
        0 <= j < k < BLOCK_COUNT ==> apart(
            (#[trigger] blocks[j]).address as int,
            blocks[j].size as int,
            (#[trigger] blocks[k]).address as int,
            blocks[k].size as int,
        )
    &&& forall|k: int|
        0 <= k < BLOCK_COUNT ==> filled(
            ram0,
            (#[trigger] blocks[k]).address as int,
            blocks[k].size as int,
            blocks[k].original_value,
        )
}

/// The routine for the stack page.
pub open spec fn primary(c: Setup) -> Seq<u8> {
    restore_code(c.snap, c.blocks[9])
}

/// Where the routine for the stack page starts.
pub open spec fn primary_start(c: Setup) -> int {
    code_start(c.snap.cpu.sp, primary(c).len() as int)
}

/// The image with the routine for the stack page in it.
pub open spec fn with_primary(c: Setup) -> Seq<u8> {
    overlay(c.ram0, primary_start(c), primary(c))
}

/// The patched image.
pub open spec fn image(c: Setup) -> Seq<u8> {
    patched_image(c.ram0, c.snap, c.blocks)
}

/// The routine of block 9.
pub open spec fn code9(c: Setup) -> Seq<u8> {
    block9_code(c.blocks, c.snap.mem.ram.subrange(0xF8, 0x100), c.blocks[9].address)
}

/// The routine of block 10.
pub open spec fn code10(c: Setup) -> Seq<u8> {
    block10_code(
        c.snap,
        c.blocks[8],
        c.blocks[9].original_value,
        (c.blocks[9].size % 256) as u8,
        primary_start(c) as u16,
    )
}

/// The setup is one that patching produces, and the frame for the return
/// does not wrap round the stack page.
///
/// The routine for the stack page then lies clear of the frame: below it
/// with the safety margin between them where it fits there, and else at the
/// end of the page, above it.
pub open spec fn setup_ok(c: Setup) -> bool {
    &&& c.ram0.len() == 65536
    &&& c.snap.mem.ram.len() == 65536
    &&& layout_ok(c.blocks, c.ram0)
    &&& c.snap.cpu.sp >= 2
}

/// The first `k` blocks hold, in the image with the saved bytes, what they
/// keep; outside these blocks that image is the one it was made from.
#[verifier::rlimit(80)]
proof fn lemma_with_saved_at(w: Seq<u8>, blocks: Seq<BlockAllocation>, ram0: Seq<u8>, k: int, a: int)
    requires
        w.len() == 65536,
        layout_ok(blocks, ram0),
        0 <= k <= 8,
        0 <= a < 65536,
    ensures
        with_saved(w, blocks, k).len() == 65536,
        (forall|j: int| 0 <= j < k ==> !in_block(blocks, j, a)) ==> with_saved(w, blocks, k)[a]
            == w[a],
        forall|j: int|
            0 <= j < k && in_block(blocks, j, a) ==> with_saved(w, blocks, k)[a] == saved_bytes(
                w,
                j,
            )[a - blocks[j].address],
    decreases k,
{
    if k > 0 {
        lemma_with_saved_at(w, blocks, ram0, k - 1, a);
        let prev = with_saved(w, blocks, k - 1);
        assert(saved_bytes(prev, k - 1) =~= saved_bytes(w, k - 1)) by {
            lemma_saved_bytes_same(w, blocks, ram0, k - 1, k - 1);
        }
        assert(saved_bytes(w, k - 1).len() == blocks[k - 1].size);
        assert(with_saved(w, blocks, k) == overlay(
            prev,
            blocks[k - 1].address as int,
            saved_bytes(prev, k - 1),
        ));
        if forall|j: int| 0 <= j < k ==> !in_block(blocks, j, a) {
            assert(!in_block(blocks, k - 1, a));
            assert forall|j: int| 0 <= j < k - 1 implies !in_block(blocks, j, a) by {
                assert(!in_block(blocks, j, a));
            }
            assert(with_saved(w, blocks, k)[a] == prev[a]);
        }
        assert forall|j: int| 0 <= j < k && in_block(blocks, j, a) implies with_saved(
            w,
            blocks,
            k,
        )[a] == saved_bytes(w, j)[a - blocks[j].address] by {
            if j < k - 1 {
                assert(apart(
                    blocks[j].address as int,
                    blocks[j].size as int,
                    blocks[k - 1].address as int,
                    blocks[k - 1].size as int,
                ));
            }
        }
    }
}

/// What a block keeps is read from outside the scanned window, where the
/// image with the saved bytes of the first `k` blocks is the one it was made
/// from.
#[verifier::rlimit(80)]
proof fn lemma_saved_bytes_same(w: Seq<u8>, blocks: Seq<BlockAllocation>, ram0: Seq<u8>, k: int, j: int)
    requires
        w.len() == 65536,
        layout_ok(blocks, ram0),
        0 <= k <= 8,
        0 <= j < 8,
    ensures
        saved_bytes(with_saved(w, blocks, k), j) =~= saved_bytes(w, j),
        saved_bytes(w, j).len() == block_size(j),
    decreases k,
{
    let prev = with_saved(w, blocks, k);
    assert forall|a: int| 0 <= a < 0x200 || 0xFFF0 <= a < 65536 implies #[trigger] prev[a]
        == w[a] by {
        lemma_outside_window(w, blocks, ram0, k, a);
    }
    lemma_outside_window(w, blocks, ram0, k, 0);
    let x = saved_bytes(prev, j);
    let y = saved_bytes(w, j);
    assert(x.len() == y.len());
    assert forall|i: int| 0 <= i < x.len() implies x[i] == y[i] by {
        if j == 0 {
            if i < 32 {
                assert(x[i] == prev[0x0100 + i]);
                assert(y[i] == w[0x0100 + i]);
            } else {
                assert(x[i] == prev[0xFFF0 + (i - 32)]);
                assert(y[i] == w[0xFFF0 + (i - 32)]);
            }
        } else if j == 1 {
            if i < 32 {
                assert(x[i] == prev[0x0120 + i]);
                assert(y[i] == w[0x0120 + i]);
            } else {
                assert(x[i] == prev[0x00F8 + (i - 32)]);
                assert(y[i] == w[0x00F8 + (i - 32)]);
            }
        } else {
            assert(x[i] == prev[0x0100 + 32 * j + i]);
            assert(y[i] == w[0x0100 + 32 * j + i]);
        }
    }
}

/// Outside the scanned window the image with the saved bytes is the one it
/// was made from.
proof fn lemma_outside_window(w: Seq<u8>, blocks: Seq<BlockAllocation>, ram0: Seq<u8>, k: int, a: int)
    requires
        w.len() == 65536,
        layout_ok(blocks, ram0),
        0 <= k <= 8,
        0 <= a < 0x200 || 0xFFF0 <= a < 65536,
    ensures
        with_saved(w, blocks, k).len() == 65536,
        with_saved(w, blocks, k)[a] == w[a],
    decreases k,
{
    if k > 0 {
        lemma_outside_window(w, blocks, ram0, k - 1, a);
        lemma_saved_bytes_len(with_saved(w, blocks, k - 1), k - 1);
    }
}

/// A block keeps as many bytes as it has.
proof fn lemma_saved_bytes_len(w: Seq<u8>, j: int)
    requires
        w.len() == 65536,
        0 <= j < 8,
    ensures
        saved_bytes(w, j).len() == block_size(j),
{
}

} // verus!

verus! {

/// The loop for block `k` lies at its place among the copy loops.
proof fn lemma_copy_loops_piece(blocks: Seq<BlockAllocation>, n: int, k: int)
    requires
        0 <= k < n,
    ensures
        copy_loops(blocks, n).len() == 11 * n,
        copy_loops(blocks, n).subrange(11 * k, 11 * k + 11) == copy_loop(
            blocks[k].address,
            (0x0100 + 32 * k) as u16,
            31,
        ),
    decreases n,
{
    let piece = copy_loop(blocks[n - 1].address, (0x0100 + 32 * (n - 1)) as u16, 31);
    let before = copy_loops(blocks, n - 1);
    assert(copy_loops(blocks, n) == before + piece);
    if n - 1 > 0 {
        lemma_copy_loops_piece(blocks, n - 1, 0);
    }
    assert(before.len() == 11 * (n - 1));
    if k == n - 1 {
        assert((before + piece).subrange(11 * k, 11 * k + 11) =~= piece);
    } else {
        lemma_copy_loops_piece(blocks, n - 1, k);
        assert((before + piece).subrange(11 * k, 11 * k + 11) =~= before.subrange(
            11 * k,
            11 * k + 11,
        ));
    }
}

/// The loop for block `k` lies at its place among the fill loops.
proof fn lemma_fill_loops_piece(blocks: Seq<BlockAllocation>, n: int, k: int)
    requires
        0 <= k < n,
    ensures
        fill_loops(blocks, n).len() == 12 * n,
        fill_loops(blocks, n).subrange(12 * k, 12 * k + 12) == fill_loop(
            blocks[k].address,
            blocks[k].original_value,
            (blocks[k].size % 256) as u8,
        ),
    decreases n,
{
    let piece = fill_loop(
        blocks[n - 1].address,
        blocks[n - 1].original_value,
        (blocks[n - 1].size % 256) as u8,
    );
    let before = fill_loops(blocks, n - 1);
    assert(fill_loops(blocks, n) == before + piece);
    if n - 1 > 0 {
        lemma_fill_loops_piece(blocks, n - 1, 0);
    }
    assert(before.len() == 12 * (n - 1));
    if k == n - 1 {
        assert((before + piece).subrange(12 * k, 12 * k + 12) =~= piece);
    } else {
        lemma_fill_loops_piece(blocks, n - 1, k);
        assert((before + piece).subrange(12 * k, 12 * k + 12) =~= before.subrange(
            12 * k,
            12 * k + 12,
        ));
    }
}

/// The store for byte `k` lies at its place among the stores.
proof fn lemma_zp_stores_piece(f8_ff: Seq<u8>, n: int, k: int)
    requires
        0 <= k < n,
    ensures
        zp_stores(f8_ff, n).len() == 4 * n,
        zp_stores(f8_ff, n).subrange(4 * k, 4 * k + 4) == store_zp(f8_ff[k], (0xF8 + k) as u8),
    decreases n,
{
    let piece = store_zp(f8_ff[n - 1], (0xF8 + (n - 1)) as u8);
    let before = zp_stores(f8_ff, n - 1);
    assert(zp_stores(f8_ff, n) == before + piece);
    if n - 1 > 0 {
        lemma_zp_stores_piece(f8_ff, n - 1, 0);
    }
    assert(before.len() == 4 * (n - 1));
    if k == n - 1 {
        assert((before + piece).subrange(4 * k, 4 * k + 4) =~= piece);
    } else {
        lemma_zp_stores_piece(f8_ff, n - 1, k);
        assert((before + piece).subrange(4 * k, 4 * k + 4) =~= before.subrange(4 * k, 4 * k + 4));
    }
}

/// Where the pieces of the routine of block 9 lie in it.
#[verifier::rlimit(80)]
pub proof fn lemma_block9_pieces(blocks: Seq<BlockAllocation>, f8_ff: Seq<u8>, next: u16, k: int)
    requires
        0 <= k < 8,
    ensures
        block9_code(blocks, f8_ff, next).len() == 230,
        block9_code(blocks, f8_ff, next).subrange(11 * k, 11 * k + 11) == copy_loop(
            blocks[k].address,
            (0x0100 + 32 * k) as u16,
            31,
        ),
        block9_code(blocks, f8_ff, next).subrange(88, 99) == copy_loop(
            (blocks[0].address + 32) as u16,
            0xFFF0,
            15,
        ),
        block9_code(blocks, f8_ff, next).subrange(99 + 12 * k, 111 + 12 * k) == fill_loop(
            blocks[k].address,
            blocks[k].original_value,
            (blocks[k].size % 256) as u8,
        ),
        block9_code(blocks, f8_ff, next).subrange(195 + 4 * k, 199 + 4 * k) == store_zp(
            f8_ff[k],
            (0xF8 + k) as u8,
        ),
        block9_code(blocks, f8_ff, next).subrange(227, 230) == jump(next),
{
    let a = copy_loops(blocks, 8);
    let b = copy_loop((blocks[0].address + 32) as u16, 0xFFF0, 15);
    let c = fill_loops(blocks, 8);
    let d = zp_stores(f8_ff, 8);
    let e = jump(next);
    let all = block9_code(blocks, f8_ff, next);
    lemma_copy_loops_piece(blocks, 8, k);
    lemma_fill_loops_piece(blocks, 8, k);
    lemma_zp_stores_piece(f8_ff, 8, k);
    assert(all == a + b + c + d + e);
    assert(a.len() == 88);
    assert(b.len() == 11);
    assert(c.len() == 96);
    assert(d.len() == 32);
    assert(e.len() == 3);
    assert(all.subrange(11 * k, 11 * k + 11) =~= a.subrange(11 * k, 11 * k + 11));
    assert(all.subrange(88, 99) =~= b);
    assert(all.subrange(99 + 12 * k, 111 + 12 * k) =~= c.subrange(12 * k, 12 * k + 12));
    assert(all.subrange(195 + 4 * k, 199 + 4 * k) =~= d.subrange(4 * k, 4 * k + 4));
    assert(all.subrange(227, 230) =~= e);
}

/// What the patched image holds at address `a`: in blocks 9 and 10 their
/// routines, in blocks 1 to 8 what they keep, elsewhere the image with the
/// routine for the stack page.
#[verifier::rlimit(80)]
pub proof fn lemma_image_at(c: Setup, a: int)
    requires
        setup_ok(c),
        0 <= a < 65536,
    ensures
        image(c).len() == 65536,
        with_primary(c).len() == 65536,
        code9(c).len() == 230,
        code10(c).len() == 35,
        in_block(c.blocks, 9, a) ==> image(c)[a] == code10(c)[a - c.blocks[9].address],
        in_block(c.blocks, 8, a) ==> image(c)[a] == code9(c)[a - c.blocks[8].address],
        forall|j: int|
            0 <= j < 8 && in_block(c.blocks, j, a) ==> image(c)[a] == saved_bytes(
                with_primary(c),
                j,
            )[a - c.blocks[j].address],
        (forall|j: int| 0 <= j < BLOCK_COUNT ==> !in_block(c.blocks, j, a)) ==> image(c)[a]
            == with_primary(c)[a],
{
    let w = with_primary(c);
    let blocks = c.blocks;
    lemma_with_saved_at(w, blocks, c.ram0, 8, a);
    crate::patch_mem::lemma_block9_len(
        blocks,
        c.snap.mem.ram.subrange(0xF8, 0x100),
        blocks[9].address,
    );
    crate::patch_mem::lemma_block10_len(
        c.snap,
        blocks[8],
        blocks[9].original_value,
        (blocks[9].size % 256) as u8,
        primary_start(c) as u16,
    );
    let with_blocks = with_saved(w, blocks, 8);
    let with_block9 = overlay(with_blocks, blocks[8].address as int, code9(c));
    assert(image(c) == overlay(with_block9, blocks[9].address as int, code10(c)));
    assert(blocks[8].size == 230);
    assert(blocks[9].size == 35);
    assert(apart(
        blocks[8].address as int,
        blocks[8].size as int,
        blocks[9].address as int,
        blocks[9].size as int,
    ));
    assert forall|j: int| 0 <= j < 8 && in_block(blocks, j, a) implies image(c)[a]
        == saved_bytes(w, j)[a - blocks[j].address] by {
        assert(apart(
            blocks[j].address as int,
            blocks[j].size as int,
            blocks[8].address as int,
            blocks[8].size as int,
        ));
        assert(apart(
            blocks[j].address as int,
            blocks[j].size as int,
            blocks[9].address as int,
            blocks[9].size as int,
        ));
    }
    if forall|j: int| 0 <= j < BLOCK_COUNT ==> !in_block(blocks, j, a) {
        assert(!in_block(blocks, 8, a));
        assert(!in_block(blocks, 9, a));
        assert forall|j: int| 0 <= j < 8 implies !in_block(blocks, j, a) by {
            assert(!in_block(blocks, j, a));
        }
    }
}

} // verus!

verus! {

/// The machine as the decompressor leaves it: RAM from `$0200` to `$FFEF`
/// is the patched image, the port hides the chips, and the processor is
/// about to run block 9.
pub open spec fn at_block9(c: Setup, m: Machine) -> bool {
    &&& plain(m)
    &&& m.pc == c.blocks[8].address
    &&& !m.returned
    &&& forall|a: int| SCAN_START <= a <= SCAN_END ==> #[trigger] m.ram[a] == image(c)[a]
}

/// The machine is `offset` bytes into block 9, the routines of blocks 9 and
/// 10 are in RAM, and nothing but registers and RAM has changed since `m0`.
pub open spec fn in_block9(c: Setup, m0: Machine, m: Machine, offset: int) -> bool {
    &&& plain(m)
    &&& m.pc == c.blocks[8].address + offset
    &&& m.port == m0.port
    &&& m.chip_writes == m0.chip_writes
    &&& m.chip_inputs == m0.chip_inputs
    &&& !m.returned
    &&& forall|a: int|
        in_block(c.blocks, 8, a) || in_block(c.blocks, 9, a) ==> #[trigger] m.ram[a] == image(
            c,
        )[a]
}

/// The routine of block 9 is in RAM.
proof fn lemma_ram_has_code9(c: Setup, m: Machine)
    requires
        setup_ok(c),
        forall|a: int| in_block(c.blocks, 8, a) ==> #[trigger] m.ram[a] == image(c)[a],
    ensures
        forall|i: int| 0 <= i < 230 ==> m.ram[c.blocks[8].address + i] == #[trigger] code9(c)[i],
{
    assert forall|i: int| 0 <= i < 230 implies m.ram[c.blocks[8].address + i] == #[trigger] code9(
        c,
    )[i] by {
        let a = c.blocks[8].address + i;
        assert(in_block(c.blocks, 8, a));
        lemma_image_at(c, a);
    }
}

/// The first 32 bytes that a block keeps are its part of the stack page.
proof fn lemma_saved_page(w: Seq<u8>, j: int, i: int)
    requires
        w.len() == 65536,
        0 <= j < 8,
        0 <= i < 32,
    ensures
        saved_bytes(w, j)[i] == w[0x0100 + 32 * j + i],
{
}

/// The copy loop of block `k` is in RAM at its place in block 9.
#[verifier::rlimit(80)]
proof fn lemma_copy_loop_in_ram(c: Setup, m: Machine, k: int)
    requires
        setup_ok(c),
        0 <= k < 8,
        forall|a: int| in_block(c.blocks, 8, a) ==> #[trigger] m.ram[a] == image(c)[a],
    ensures
        has_copy_loop(
            m.ram,
            c.blocks[8].address + 11 * k,
            c.blocks[k].address,
            (0x0100 + 32 * k) as u16,
            31,
        ),
{
    lemma_ram_has_code9(c, m);
    lemma_block9_pieces(c.blocks, c.snap.mem.ram.subrange(0xF8, 0x100), c.blocks[9].address, k);
    let piece = code9(c).subrange(11 * k, 11 * k + 11);
    let at = c.blocks[8].address + 11 * k;
    assert forall|i: int| 0 <= i < 11 implies m.ram[at + i] == piece[i] by {
        assert(piece[i] == code9(c)[11 * k + i]);
    }
    assert(m.ram[at] == piece[0]);
    assert(m.ram[at + 1] == piece[1]);
    assert(m.ram[at + 2] == piece[2]);
    assert(m.ram[at + 3] == piece[3]);
    assert(m.ram[at + 4] == piece[4]);
    assert(m.ram[at + 5] == piece[5]);
    assert(m.ram[at + 6] == piece[6]);
    assert(m.ram[at + 7] == piece[7]);
    assert(m.ram[at + 8] == piece[8]);
    assert(m.ram[at + 9] == piece[9]);
    assert(m.ram[at + 10] == piece[10]);
}

/// After the first `k` copy loops of block 9 the first `k` parts of the
/// stack page are as in the image with the routine for the stack page.
#[verifier::rlimit(80)]
proof fn lemma_copies(c: Setup, m0: Machine, k: int) -> (m: Machine)
    requires
        setup_ok(c),
        at_block9(c, m0),
        0 <= k <= 8,
    ensures
        reaches(m0, m),
        in_block9(c, m0, m, 11 * k),
        forall|a: int| SCAN_START <= a <= SCAN_END ==> #[trigger] m.ram[a] == image(c)[a],
        forall|a: int| 0x0100 <= a < 0x0100 + 32 * k ==> #[trigger] m.ram[a] == with_primary(c)[a],
    decreases k,
{
    if k == 0 {
        crate::mos6502::lemma_reaches_self(m0);
        m0
    } else {
        let j = k - 1;
        let g = lemma_copies(c, m0, j);
        let src = c.blocks[j].address;
        let dst = (0x0100 + 32 * j) as u16;
        lemma_copy_loop_in_ram(c, g, j);
        assert(c.blocks[8].size == 230);
        assert(c.blocks[j].size >= 32);
        let f = lemma_copy_loop(g, src, dst, 31);
        lemma_reaches_trans(m0, g, f);
        lemma_image_at(c, 0);
        assert forall|a: int| 0x0100 <= a < 0x0100 + 32 * k implies #[trigger] f.ram[a]
            == with_primary(c)[a] by {
            if a >= dst {
                let i = a - dst;
                let from = src + i;
                assert(f.ram[a] == g.ram[from]);
                assert(in_block(c.blocks, j, from));
                lemma_image_at(c, from);
                lemma_saved_page(with_primary(c), j, i);
            }
        }
        f
    }
}

} // verus!

verus! {

/// `LDA #value; STA zp` lies at `at`.
pub open spec fn has_store_zp(ram: Seq<u8>, at: int, value: u8, zp: u8) -> bool {
    &&& ram[at] == 0xA9
    &&& ram[at + 1] == value
    &&& ram[at + 2] == 0x85
    &&& ram[at + 3] == zp
}

/// `JMP target` lies at `at`.
pub open spec fn has_jump(ram: Seq<u8>, at: int, target: u16) -> bool {
    &&& ram[at] == 0x4C
    &&& ram[at + 1] == lo(target)
    &&& ram[at + 2] == hi(target)
}

/// The pieces of block 9 behind the copy loops are in RAM at their places.
#[verifier::rlimit(80)]
proof fn lemma_block9_in_ram(c: Setup, m: Machine, k: int)
    requires
        setup_ok(c),
        0 <= k < 8,
        forall|a: int| in_block(c.blocks, 8, a) ==> #[trigger] m.ram[a] == image(c)[a],
    ensures
        has_copy_loop(
            m.ram,
            c.blocks[8].address + 88,
            (c.blocks[0].address + 32) as u16,
            0xFFF0,
            15,
        ),
        has_fill_loop(
            m.ram,
            c.blocks[8].address + 99 + 12 * k,
            c.blocks[k].address,
            c.blocks[k].original_value,
            (c.blocks[k].size % 256) as u8,
        ),
        has_store_zp(
            m.ram,
            c.blocks[8].address + 195 + 4 * k,
            c.snap.mem.ram[0xF8 + k],
            (0xF8 + k) as u8,
        ),
        has_jump(m.ram, c.blocks[8].address + 227, c.blocks[9].address),
{
    lemma_ram_has_code9(c, m);
    let f8 = c.snap.mem.ram.subrange(0xF8, 0x100);
    lemma_block9_pieces(c.blocks, f8, c.blocks[9].address, k);
    let base = c.blocks[8].address as int;
    let all = code9(c);
    let p1 = all.subrange(88, 99);
    assert forall|i: int| 0 <= i < 11 implies m.ram[base + 88 + i] == p1[i] by {
        assert(p1[i] == all[88 + i]);
    }
    assert(m.ram[base + 88] == p1[0]);
    assert(m.ram[base + 88 + 1] == p1[1]);
    assert(m.ram[base + 88 + 2] == p1[2]);
    assert(m.ram[base + 88 + 3] == p1[3]);
    assert(m.ram[base + 88 + 4] == p1[4]);
    assert(m.ram[base + 88 + 5] == p1[5]);
    assert(m.ram[base + 88 + 6] == p1[6]);
    assert(m.ram[base + 88 + 7] == p1[7]);
    assert(m.ram[base + 88 + 8] == p1[8]);
    assert(m.ram[base + 88 + 9] == p1[9]);
    assert(m.ram[base + 88 + 10] == p1[10]);
    let p2 = all.subrange(99 + 12 * k, 111 + 12 * k);
    let at2 = base + 99 + 12 * k;
    assert forall|i: int| 0 <= i < 12 implies m.ram[at2 + i] == p2[i] by {
        assert(p2[i] == all[99 + 12 * k + i]);
    }
    assert(m.ram[at2] == p2[0]);
    assert(m.ram[at2 + 1] == p2[1]);
    assert(m.ram[at2 + 2] == p2[2]);
    assert(m.ram[at2 + 3] == p2[3]);
    assert(m.ram[at2 + 4] == p2[4]);
    assert(m.ram[at2 + 5] == p2[5]);
    assert(m.ram[at2 + 6] == p2[6]);
    assert(m.ram[at2 + 7] == p2[7]);
    assert(m.ram[at2 + 8] == p2[8]);
    assert(m.ram[at2 + 9] == p2[9]);
    assert(m.ram[at2 + 10] == p2[10]);
    assert(m.ram[at2 + 11] == p2[11]);
    let p3 = all.subrange(195 + 4 * k, 199 + 4 * k);
    let at3 = base + 195 + 4 * k;
    assert forall|i: int| 0 <= i < 4 implies m.ram[at3 + i] == p3[i] by {
        assert(p3[i] == all[195 + 4 * k + i]);
    }
    assert(m.ram[at3] == p3[0]);
    assert(m.ram[at3 + 1] == p3[1]);
    assert(m.ram[at3 + 2] == p3[2]);
    assert(m.ram[at3 + 3] == p3[3]);
    assert(f8[k] == c.snap.mem.ram[0xF8 + k]);
    let p4 = all.subrange(227, 230);
    assert forall|i: int| 0 <= i < 3 implies m.ram[base + 227 + i] == p4[i] by {
        assert(p4[i] == all[227 + i]);
    }
    assert(m.ram[base + 227] == p4[0]);
    assert(m.ram[base + 227 + 1] == p4[1]);
    assert(m.ram[base + 227 + 2] == p4[2]);
}

/// After the copy loops of block 9 the stack page and the vector tail are
/// back.
#[verifier::rlimit(80)]
proof fn lemma_copied(c: Setup, m0: Machine) -> (m: Machine)
    requires
        setup_ok(c),
        at_block9(c, m0),
    ensures
        reaches(m0, m),
        in_block9(c, m0, m, 99),
        forall|a: int| SCAN_START <= a <= SCAN_END ==> #[trigger] m.ram[a] == image(c)[a],
        forall|a: int| 0x0100 <= a < 0x0200 ==> #[trigger] m.ram[a] == with_primary(c)[a],
        forall|a: int| 0xFFF0 <= a < 0x10000 ==> #[trigger] m.ram[a] == c.ram0[a],
{
    let g = lemma_copies(c, m0, 8);
    lemma_block9_in_ram(c, g, 0);
    let src = (c.blocks[0].address + 32) as u16;
    assert(c.blocks[0].size == 48);
    assert(c.blocks[8].size == 230);
    let f = lemma_copy_loop(g, src, 0xFFF0, 15);
    lemma_reaches_trans(m0, g, f);
    lemma_image_at(c, 0);
    assert forall|a: int| 0xFFF0 <= a < 0x10000 implies #[trigger] f.ram[a] == c.ram0[a] by {
        let i = a - 0xFFF0;
        let from = src + i;
        assert(f.ram[a] == g.ram[from]);
        assert(in_block(c.blocks, 0, from));
        lemma_image_at(c, from);
        assert(saved_bytes(with_primary(c), 0)[32 + i] == with_primary(c)[a]);
    }
    f
}

/// After the first `k` fill loops of block 9 the first `k` blocks hold their
/// run bytes again.
#[verifier::rlimit(80)]
proof fn lemma_fills(c: Setup, m0: Machine, k: int) -> (m: Machine)
    requires
        setup_ok(c),
        at_block9(c, m0),
        0 <= k <= 8,
    ensures
        reaches(m0, m),
        in_block9(c, m0, m, 99 + 12 * k),
        forall|a: int|
            SCAN_START <= a <= SCAN_END && (forall|j: int| 0 <= j < 8 ==> !in_block(c.blocks, j, a))
                ==> #[trigger] m.ram[a] == image(c)[a],
        forall|a: int, j: int|
            0 <= j < k && in_block(c.blocks, j, a) ==> #[trigger] m.ram[a] == (
            #[trigger] c.blocks[j]).original_value,
        forall|a: int, j: int|
            k <= j < 8 && in_block(c.blocks, j, a) ==> #[trigger] m.ram[a] == image(c)[a] || (
            #[trigger] c.blocks[j]).size == 0,
        forall|a: int| 0x0100 <= a < 0x0200 ==> #[trigger] m.ram[a] == with_primary(c)[a],
        forall|a: int| 0xFFF0 <= a < 0x10000 ==> #[trigger] m.ram[a] == c.ram0[a],
    decreases k,
{
    if k == 0 {
        lemma_copied(c, m0)
    } else {
        let i = k - 1;
        let g = lemma_fills(c, m0, i);
        lemma_block9_in_ram(c, g, i);
        assert(c.blocks[i].size == block_size(i));
        assert(c.blocks[8].size == 230);
        assert(apart(
            c.blocks[i].address as int,
            c.blocks[i].size as int,
            c.blocks[8].address as int,
            c.blocks[8].size as int,
        ));
        assert(apart(
            c.blocks[i].address as int,
            c.blocks[i].size as int,
            c.blocks[9].address as int,
            c.blocks[9].size as int,
        ));
        let f = lemma_fill_loop(
            g,
            c.blocks[i].address,
            c.blocks[i].original_value,
            c.blocks[i].size as u8,
        );
        lemma_reaches_trans(m0, g, f);
        assert forall|a: int, j: int| 0 <= j < k && in_block(c.blocks, j, a) implies #[trigger] f.ram[a]
            == (#[trigger] c.blocks[j]).original_value by {
            if j < i {
                assert(apart(
                    c.blocks[j].address as int,
                    c.blocks[j].size as int,
                    c.blocks[i].address as int,
                    c.blocks[i].size as int,
                ));
                assert(f.ram[a] == g.ram[a]);
            }
        }
        assert forall|a: int, j: int| k <= j < 8 && in_block(c.blocks, j, a) implies #[trigger] f.ram[a]
            == image(c)[a] || (#[trigger] c.blocks[j]).size == 0 by {
            assert(apart(
                c.blocks[i].address as int,
                c.blocks[i].size as int,
                c.blocks[j].address as int,
                c.blocks[j].size as int,
            ));
            assert(f.ram[a] == g.ram[a]);
        }
        assert forall|a: int|
            SCAN_START <= a <= SCAN_END && (forall|j: int|
                0 <= j < 8 ==> !in_block(c.blocks, j, a)) implies #[trigger] f.ram[a] == image(
            c,
        )[a] by {
            assert(!in_block(c.blocks, i, a));
        }
        f
    }
}

/// `LDA #value; STA zp`: the byte at `zp` is set to `value`.
pub proof fn lemma_store_zp(m: Machine, value: u8, zp: u8) -> (f: Machine)
    requires
        m.ram.len() == 65536,
        m.pc + 4 < 65536,
        has_store_zp(m.ram, m.pc as int, value, zp),
        zp >= 2,
        apart(zp as int, 1, m.pc as int, 4),
    ensures
        reaches(m, f),
        f == (Machine {
            ram: m.ram.update(zp as int, value),
            a: value,
            zero: value == 0,
            negative: value >= 0x80,
            pc: (m.pc + 4) as u16,
            ..m
        }),
{
    let m1 = step(m);
    lemma_lda(m, value);
    let m2 = step(m1);
    crate::mos6502::lemma_sta_zp(m1, zp);
    lemma_reaches_step(m);
    lemma_reaches_step(m1);
    lemma_reaches_trans(m, m1, m2);
    m2
}

/// After the first `k` stores of block 9 the first `k` bytes from `$F8` on
/// are back.
#[verifier::rlimit(80)]
proof fn lemma_stores(c: Setup, m0: Machine, k: int) -> (m: Machine)
    requires
        setup_ok(c),
        at_block9(c, m0),
        0 <= k <= 8,
    ensures
        reaches(m0, m),
        in_block9(c, m0, m, 195 + 4 * k),
        forall|a: int|
            SCAN_START <= a <= SCAN_END && (forall|j: int| 0 <= j < 8 ==> !in_block(c.blocks, j, a))
                ==> #[trigger] m.ram[a] == image(c)[a],
        forall|a: int, j: int|
            0 <= j < 8 && in_block(c.blocks, j, a) ==> #[trigger] m.ram[a] == (
            #[trigger] c.blocks[j]).original_value,
        forall|a: int| 0x0100 <= a < 0x0200 ==> #[trigger] m.ram[a] == with_primary(c)[a],
        forall|a: int| 0xFFF0 <= a < 0x10000 ==> #[trigger] m.ram[a] == c.ram0[a],
        forall|a: int| 0xF8 <= a < 0xF8 + k ==> #[trigger] m.ram[a] == c.snap.mem.ram[a],
    decreases k,
{
    if k == 0 {
        lemma_fills(c, m0, 8)
    } else {
        let i = k - 1;
        let g = lemma_stores(c, m0, i);
        lemma_block9_in_ram(c, g, i);
        assert(c.blocks[8].size == 230);
        let m2 = lemma_store_zp(g, c.snap.mem.ram[0xF8 + i], (0xF8 + i) as u8);
        lemma_reaches_trans(m0, g, m2);
        assert forall|a: int| 0x0100 <= a < 0x10000 implies #[trigger] m2.ram[a] == g.ram[a] by {}
        assert forall|a: int, j: int| 0 <= j < 8 && in_block(c.blocks, j, a) implies #[trigger] m2.ram[a]
            == (#[trigger] c.blocks[j]).original_value by {
            assert(g.ram[a] == c.blocks[j].original_value);
        }
        m2
    }
}

/// The machine when block 9 is done: the stack page is as in the image with
/// the routine for the stack page, the vector tail, `$F8..=$FF` and all of
/// the scanned window outside blocks 9 and 10 are as before the patch, and
/// the processor is about to run block 10.
pub open spec fn at_block10(c: Setup, m0: Machine, m: Machine) -> bool {
    &&& plain(m)
    &&& m.pc == c.blocks[9].address
    &&& m.port == m0.port
    &&& m.chip_writes == m0.chip_writes
    &&& m.chip_inputs == m0.chip_inputs
    &&& !m.returned
    &&& forall|a: int|
        in_block(c.blocks, 8, a) || in_block(c.blocks, 9, a) ==> #[trigger] m.ram[a] == image(
            c,
        )[a]
    &&& forall|a: int|
        SCAN_START <= a <= SCAN_END && !in_block(c.blocks, 8, a) && !in_block(c.blocks, 9, a)
            ==> #[trigger] m.ram[a] == c.ram0[a]
    &&& forall|a: int| 0x0100 <= a < 0x0200 ==> #[trigger] m.ram[a] == with_primary(c)[a]
    &&& forall|a: int| 0xFFF0 <= a < 0x10000 ==> #[trigger] m.ram[a] == c.ram0[a]
    &&& forall|a: int| 0xF8 <= a < 0x0100 ==> #[trigger] m.ram[a] == c.snap.mem.ram[a]
}

/// Block 9 runs to its end.
#[verifier::rlimit(80)]
pub proof fn lemma_block9(c: Setup, m0: Machine) -> (m: Machine)
    requires
        setup_ok(c),
        at_block9(c, m0),
    ensures
        reaches(m0, m),
        at_block10(c, m0, m),
{
    let g = lemma_stores(c, m0, 8);
    lemma_block9_in_ram(c, g, 0);
    lemma_word_of_bytes(c.blocks[9].address);
    assert(c.blocks[8].size == 230);
    let f = step(g);
    crate::mos6502::lemma_jmp(g, c.blocks[9].address);
    lemma_reaches_step(g);
    lemma_reaches_trans(m0, g, f);
    assert forall|a: int|
        SCAN_START <= a <= SCAN_END && !in_block(c.blocks, 8, a) && !in_block(
            c.blocks,
            9,
            a,
        ) implies #[trigger] f.ram[a] == c.ram0[a] by {
        lemma_image_at(c, a);
        if exists|j: int| 0 <= j < 8 && in_block(c.blocks, j, a) {
            let j = choose|j: int| 0 <= j < 8 && in_block(c.blocks, j, a);
            assert(f.ram[a] == c.blocks[j].original_value);
            assert(filled(
                c.ram0,
                c.blocks[j].address as int,
                c.blocks[j].size as int,
                c.blocks[j].original_value,
            ));
        } else {
            assert forall|j: int| 0 <= j < BLOCK_COUNT implies !in_block(c.blocks, j, a) by {}
            assert(f.ram[a] == image(c)[a]);
            assert(image(c)[a] == with_primary(c)[a]);
        }
    }
    f
}

} // verus!

verus! {

/// `LDA #value; PHA` lies at `at`.
pub open spec fn has_push(ram: Seq<u8>, at: int, value: u8) -> bool {
    &&& ram[at] == 0xA9
    &&& ram[at + 1] == value
    &&& ram[at + 2] == 0x48
}

/// `LDA #value; STA addr` lies at `at`.
pub open spec fn has_store_abs(ram: Seq<u8>, at: int, value: u8, addr: u16) -> bool {
    &&& ram[at] == 0xA9
    &&& ram[at + 1] == value
    &&& ram[at + 2] == 0x8D
    &&& ram[at + 3] == lo(addr)
    &&& ram[at + 4] == hi(addr)
}

/// `LDA addr` lies at `at`.
pub open spec fn has_load_abs(ram: Seq<u8>, at: int, addr: u16) -> bool {
    &&& ram[at] == 0xAD
    &&& ram[at + 1] == lo(addr)
    &&& ram[at + 2] == hi(addr)
}

/// The routine of block 10 lies at `at`.
pub open spec fn has_block10(ram: Seq<u8>, at: int, c: Setup) -> bool {
    &&& ram[at] == 0xA2
    &&& ram[at + 1] == c.snap.cpu.sp
    &&& ram[at + 2] == 0x9A
    &&& has_fill_loop(
        ram,
        at + 3,
        c.blocks[8].address,
        c.blocks[8].original_value,
        (c.blocks[8].size % 256) as u8,
    )
    &&& has_store_zp(ram, at + 15, c.snap.mem.cpu_port_dir, 0x00)
    &&& has_push(ram, at + 19, hi(c.snap.cpu.pc))
    &&& has_push(ram, at + 22, lo(c.snap.cpu.pc))
    &&& has_push(ram, at + 25, c.snap.cpu.p)
    &&& ram[at + 28] == 0xA9
    &&& ram[at + 29] == c.blocks[9].original_value
    &&& ram[at + 30] == 0xA0
    &&& ram[at + 31] == (c.blocks[9].size % 256) as u8
    &&& has_jump(ram, at + 32, primary_start(c) as u16)
}

/// The bytes of the routine of block 10, one by one.
#[verifier::rlimit(80)]
proof fn lemma_code10_bytes(c: Setup)
    ensures
        code10(c).len() == 35,
        has_block10(code10(c), 0, c),
{
    let sp = c.snap.cpu.sp;
    let p0 = seq![0xA2u8, sp, 0x9Au8];
    let p1 = fill_loop(
        c.blocks[8].address,
        c.blocks[8].original_value,
        (c.blocks[8].size % 256) as u8,
    );
    let p2 = store_zp(c.snap.mem.cpu_port_dir, 0x00);
    let p3 = crate::patch_mem::push_value(hi(c.snap.cpu.pc));
    let p4 = crate::patch_mem::push_value(lo(c.snap.cpu.pc));
    let p5 = crate::patch_mem::push_value(c.snap.cpu.p);
    let p6 = seq![0xA9u8, c.blocks[9].original_value, 0xA0u8, (c.blocks[9].size % 256) as u8];
    let p7 = jump(primary_start(c) as u16);
    let all = code10(c);
    assert(all == p0 + p1 + p2 + p3 + p4 + p5 + p6 + p7);
    let flat = seq![
        p0[0], p0[1], p0[2], p1[0], p1[1], p1[2], p1[3], p1[4], p1[5], p1[6], p1[7], p1[8], p1[9],
        p1[10], p1[11], p2[0], p2[1], p2[2], p2[3], p3[0], p3[1], p3[2], p4[0], p4[1], p4[2],
        p5[0], p5[1], p5[2], p6[0], p6[1], p6[2], p6[3], p7[0], p7[1], p7[2],
    ];
    assert(all =~= flat);
}

/// The routine of block 10 is in RAM.
#[verifier::rlimit(80)]
proof fn lemma_block10_in_ram(c: Setup, m: Machine)
    requires
        setup_ok(c),
        forall|a: int| in_block(c.blocks, 9, a) ==> #[trigger] m.ram[a] == image(c)[a],
    ensures
        has_block10(m.ram, c.blocks[9].address as int, c),
{
    lemma_code10_bytes(c);
    let base = c.blocks[9].address as int;
    assert(c.blocks[9].size == 35);
    assert forall|i: int| 0 <= i < 35 implies m.ram[base + i] == #[trigger] code10(c)[i] by {
        assert(in_block(c.blocks, 9, base + i));
        lemma_image_at(c, base + i);
    }
    let code = code10(c);
    assert(m.ram[base + 0] == code[0]);
    assert(m.ram[base + 1] == code[1]);
    assert(m.ram[base + 2] == code[2]);
    assert(m.ram[base + 3] == code[3]);
    assert(m.ram[base + 4] == code[4]);
    assert(m.ram[base + 5] == code[5]);
    assert(m.ram[base + 6] == code[6]);
    assert(m.ram[base + 7] == code[7]);
    assert(m.ram[base + 8] == code[8]);
    assert(m.ram[base + 9] == code[9]);
    assert(m.ram[base + 10] == code[10]);
    assert(m.ram[base + 11] == code[11]);
    assert(m.ram[base + 12] == code[12]);
    assert(m.ram[base + 13] == code[13]);
    assert(m.ram[base + 14] == code[14]);
    assert(m.ram[base + 15] == code[15]);
    assert(m.ram[base + 16] == code[16]);
    assert(m.ram[base + 17] == code[17]);
    assert(m.ram[base + 18] == code[18]);
    assert(m.ram[base + 19] == code[19]);
    assert(m.ram[base + 20] == code[20]);
    assert(m.ram[base + 21] == code[21]);
    assert(m.ram[base + 22] == code[22]);
    assert(m.ram[base + 23] == code[23]);
    assert(m.ram[base + 24] == code[24]);
    assert(m.ram[base + 25] == code[25]);
    assert(m.ram[base + 26] == code[26]);
    assert(m.ram[base + 27] == code[27]);
    assert(m.ram[base + 28] == code[28]);
    assert(m.ram[base + 29] == code[29]);
    assert(m.ram[base + 30] == code[30]);
    assert(m.ram[base + 31] == code[31]);
    assert(m.ram[base + 32] == code[32]);
    assert(m.ram[base + 33] == code[33]);
    assert(m.ram[base + 34] == code[34]);
}

/// The stack pointer on its way down the frame for the return and up again.
proof fn lemma_frame_pointers(sp: u8)
    requires
        sp >= 2,
    ensures
        wrap_byte(sp - 1) == sp - 1,
        wrap_byte(sp - 2) == sp - 2,
        wrap_byte(wrap_byte(sp - 3) + 1) == sp - 2,
        wrap_byte(wrap_byte(sp - 3) + 2) == sp - 1,
        wrap_byte(wrap_byte(sp - 3) + 3) == sp,
        wrap_byte(sp - 3) == if sp >= 3 {
            sp - 3
        } else {
            255
        },
{
}

/// `LDA #value; PHA`: `value` is pushed.
pub proof fn lemma_push(m: Machine, value: u8) -> (f: Machine)
    requires
        m.ram.len() == 65536,
        m.pc + 3 < 65536,
        has_push(m.ram, m.pc as int, value),
        apart(0x0100 + m.sp, 1, m.pc as int, 3),
    ensures
        reaches(m, f),
        f == (Machine {
            ram: m.ram.update(0x0100 + m.sp, value),
            a: value,
            zero: value == 0,
            negative: value >= 0x80,
            sp: wrap_byte(m.sp - 1),
            pc: (m.pc + 3) as u16,
            ..m
        }),
{
    let m1 = step(m);
    lemma_lda(m, value);
    let m2 = step(m1);
    crate::mos6502::lemma_pha(m1);
    lemma_reaches_step(m);
    lemma_reaches_step(m1);
    lemma_reaches_trans(m, m1, m2);
    m2
}

/// The first part of block 10: the stack pointer is set, block 9 holds its
/// run byte again, and the direction register of the port is set.
#[verifier::rlimit(80)]
proof fn lemma_block10_head(c: Setup, m0: Machine, m: Machine) -> (f: Machine)
    requires
        setup_ok(c),
        at_block10(c, m0, m),
    ensures
        reaches(m, f),
        f.ram.len() == 65536,
        forall|a: int|
            0 <= a < 65536 ==> #[trigger] f.ram[a] == if in_block(c.blocks, 8, a) {
                c.ram0[a]
            } else {
                m.ram[a]
            },
        f == (Machine {
            ram: f.ram,
            a: c.snap.mem.cpu_port_dir,
            x: 230,
            zero: c.snap.mem.cpu_port_dir == 0,
            negative: c.snap.mem.cpu_port_dir >= 0x80,
            sp: c.snap.cpu.sp,
            port_dir: c.snap.mem.cpu_port_dir,
            pc: (c.blocks[9].address + 19) as u16,
            ..m
        }),
{
    lemma_block10_in_ram(c, m);
    assert(c.blocks[8].size == 230);
    assert(c.blocks[9].size == 35);
    assert(apart(
        c.blocks[8].address as int,
        c.blocks[8].size as int,
        c.blocks[9].address as int,
        c.blocks[9].size as int,
    ));
    let m1 = step(m);
    lemma_ldx(m, c.snap.cpu.sp);
    let m2 = step(m1);
    crate::mos6502::lemma_txs(m1);
    lemma_reaches_step(m);
    lemma_reaches_step(m1);
    lemma_reaches_trans(m, m1, m2);
    let m3 = lemma_fill_loop(m2, c.blocks[8].address, c.blocks[8].original_value, 230);
    lemma_reaches_trans(m, m2, m3);
    let m4 = step(m3);
    lemma_lda(m3, c.snap.mem.cpu_port_dir);
    let m5 = step(m4);
    crate::mos6502::lemma_sta_port_dir(m4);
    lemma_reaches_step(m3);
    lemma_reaches_step(m4);
    lemma_reaches_trans(m3, m4, m5);
    lemma_reaches_trans(m, m3, m5);
    assert(filled(
        c.ram0,
        c.blocks[8].address as int,
        c.blocks[8].size as int,
        c.blocks[8].original_value,
    ));
    m5
}

/// The machine when block 10 is done and the routine in the stack page
/// begins: the stack pointer is three below the snapshot's, the frame for the
/// return is on the stack, all of the scanned window outside block 10 is as
/// before the patch, the accumulator holds the run byte of block 10 and Y
/// its size.
pub open spec fn at_primary(c: Setup, m0: Machine, m: Machine) -> bool {
    &&& plain(m)
    &&& m.pc == primary_start(c)
    &&& m.a == c.blocks[9].original_value
    &&& m.y == 35
    &&& m.sp == wrap_byte(c.snap.cpu.sp - 3)
    &&& m.port == m0.port
    &&& m.port_dir == c.snap.mem.cpu_port_dir
    &&& m.chip_writes == m0.chip_writes
    &&& m.chip_inputs == m0.chip_inputs
    &&& !m.returned
    &&& forall|a: int|
        SCAN_START <= a <= SCAN_END && !in_block(c.blocks, 9, a) ==> #[trigger] m.ram[a]
            == c.ram0[a]
    &&& rest_restored(c, m.ram)
}

/// The frame for the return lies at `a`.
pub open spec fn in_frame(c: Setup, a: int) -> bool {
    0x0100 + c.snap.cpu.sp - 2 <= a <= 0x0100 + c.snap.cpu.sp
}

/// RAM outside the scanned window is what the restored machine has there:
/// the stack page as in the image with the routine for the stack page, but
/// for the frame for the return; the vector tail as before the patch; and
/// `$F8..=$FF` as in the snapshot.
pub open spec fn rest_restored(c: Setup, ram: Seq<u8>) -> bool {
    &&& ram.len() == 65536
    &&& forall|a: int|
        0x0100 <= a < 0x0200 && !in_frame(c, a) ==> #[trigger] ram[a] == with_primary(c)[a]
    &&& ram[0x0100 + c.snap.cpu.sp] == hi(c.snap.cpu.pc)
    &&& ram[0x0100 + c.snap.cpu.sp - 1] == lo(c.snap.cpu.pc)
    &&& ram[0x0100 + c.snap.cpu.sp - 2] == c.snap.cpu.p
    &&& forall|a: int| 0xFFF0 <= a < 0x10000 ==> #[trigger] ram[a] == c.ram0[a]
    &&& forall|a: int| 0xF8 <= a < 0x0100 ==> #[trigger] ram[a] == c.snap.mem.ram[a]
}

/// Block 10 runs to its end.
#[verifier::rlimit(80)]
pub proof fn lemma_block10(c: Setup, m0: Machine, m: Machine) -> (f: Machine)
    requires
        setup_ok(c),
        at_block10(c, m0, m),
    ensures
        reaches(m, f),
        at_primary(c, m0, f),
{
    let g = lemma_block10_head(c, m0, m);
    lemma_block10_in_ram(c, m);
    assert(c.blocks[9].size == 35);
    let base = c.blocks[9].address as int;
    assert forall|a: int| in_block(c.blocks, 9, a) implies #[trigger] g.ram[a] == m.ram[a] by {
        assert(apart(
            c.blocks[8].address as int,
            c.blocks[8].size as int,
            c.blocks[9].address as int,
            c.blocks[9].size as int,
        ));
    }
    assert(has_block10(g.ram, base, c)) by {
        lemma_block10_in_ram(c, g);
    }
    let sp = c.snap.cpu.sp;
    lemma_frame_pointers(sp);
    let m1 = lemma_push(g, hi(c.snap.cpu.pc));
    assert(has_push(m1.ram, base + 22, lo(c.snap.cpu.pc)));
    let m2 = lemma_push(m1, lo(c.snap.cpu.pc));
    assert(has_push(m2.ram, base + 25, c.snap.cpu.p));
    let m3 = lemma_push(m2, c.snap.cpu.p);
    lemma_reaches_trans(g, m1, m2);
    lemma_reaches_trans(g, m2, m3);
    lemma_reaches_trans(m, g, m3);
    assert(m3.ram[base + 28] == 0xA9);
    assert(m3.ram[base + 29] == c.blocks[9].original_value);
    assert(m3.ram[base + 30] == 0xA0);
    assert(m3.ram[base + 31] == 35);
    assert(has_jump(m3.ram, base + 32, primary_start(c) as u16));
    let m4 = step(m3);
    lemma_lda(m3, c.blocks[9].original_value);
    let m5 = step(m4);
    crate::mos6502::lemma_ldy(m4, 35);
    let m6 = step(m5);
    lemma_word_of_bytes(primary_start(c) as u16);
    crate::mos6502::lemma_jmp(m5, primary_start(c) as u16);
    lemma_reaches_step(m3);
    lemma_reaches_step(m4);
    lemma_reaches_step(m5);
    lemma_reaches_trans(m3, m4, m5);
    lemma_reaches_trans(m3, m5, m6);
    lemma_reaches_trans(m, m3, m6);
    crate::patch_mem::lemma_restore_code_len(c.snap, c.blocks[9]);
    assert(rest_restored(c, m6.ram));
    m6
}

} // verus!

verus! {

/// Length of the writes that enable the interrupts of an interface adapter.
pub open spec fn enable_len(ier: u8) -> int {
    if ier != 0 {
        5
    } else {
        0
    }
}

/// The loop that refills block 10 lies at `at`: `STA base,Y; DEY; BNE`.
pub open spec fn has_wipe_loop(ram: Seq<u8>, at: int, base: u16) -> bool {
    &&& ram[at] == 0x99
    &&& ram[at + 1] == lo(base)
    &&& ram[at + 2] == hi(base)
    &&& ram[at + 3] == 0x88
    &&& ram[at + 4] == 0xD0
    &&& ram[at + 5] == 0xFA
}

/// The last seven bytes of the routine for the stack page lie at `at`: the
/// registers are loaded, and the processor returns from interrupt.
pub open spec fn has_return(ram: Seq<u8>, at: int, cpu: Cpu6510) -> bool {
    &&& ram[at] == 0xA2
    &&& ram[at + 1] == cpu.x
    &&& ram[at + 2] == 0xA0
    &&& ram[at + 3] == cpu.y
    &&& ram[at + 4] == 0xA9
    &&& ram[at + 5] == cpu.a
    &&& ram[at + 6] == 0x40
}

/// Offset of the writes to the control registers in the routine for the
/// stack page.
pub open spec fn timers_offset(c: Setup) -> int {
    42 + enable_len(c.snap.cia1.ier) + enable_len(c.snap.cia2.ier)
}

/// The routine for the stack page lies at `at`.
pub open spec fn has_primary(ram: Seq<u8>, at: int, c: Setup) -> bool {
    let t = at + timers_offset(c);
    &&& has_wipe_loop(ram, at, (c.blocks[9].address - 1) as u16)
    &&& has_store_zp(ram, at + 6, 0x35, 0x01)
    &&& has_store_abs(ram, at + 10, 0x00, 0xD01A)
    &&& has_store_abs(ram, at + 15, 0xFF, 0xD019)
    &&& has_load_abs(ram, at + 20, 0xDC0D)
    &&& has_load_abs(ram, at + 23, 0xDD0D)
    &&& has_store_abs(ram, at + 26, 0xFF, 0xD019)
    &&& has_store_abs(ram, at + 31, c.snap.vic.registers[0x1A], 0xD01A)
    &&& has_load_abs(ram, at + 36, 0xDC0D)
    &&& has_load_abs(ram, at + 39, 0xDD0D)
    &&& (c.snap.cia1.ier != 0 ==> has_store_abs(ram, at + 42, c.snap.cia1.ier | 0x80, 0xDC0D))
    &&& (c.snap.cia2.ier != 0 ==> has_store_abs(
        ram,
        at + 42 + enable_len(c.snap.cia1.ier),
        c.snap.cia2.ier | 0x80,
        0xDD0D,
    ))
    &&& has_store_abs(ram, t, c.snap.cia1.cra, 0xDC0E)
    &&& has_store_abs(ram, t + 5, c.snap.cia1.crb, 0xDC0F)
    &&& has_store_abs(ram, t + 10, c.snap.cia2.cra, 0xDD0E)
    &&& has_store_abs(ram, t + 15, c.snap.cia2.crb, 0xDD0F)
    &&& has_store_zp(ram, t + 20, c.snap.mem.cpu_port_data, 0x01)
    &&& has_return(ram, t + 24, c.snap.cpu)
}

/// The bytes of the routine for the stack page, one by one.
#[verifier::rlimit(80)]
proof fn lemma_primary_bytes(c: Setup)
    ensures
        primary(c).len() == timers_offset(c) + 31,
        has_primary(primary(c), 0, c),
{
    let b = (c.blocks[9].address - 1) as u16;
    let v = c.snap.vic.registers[0x1A];
    let head = seq![
        0x99u8, lo(b), hi(b), 0x88u8, 0xD0u8, 0xFAu8, 0xA9u8, 0x35u8, 0x85u8, 0x01u8, 0xA9u8,
        0x00u8, 0x8Du8, lo(0xD01A), hi(0xD01A), 0xA9u8, 0xFFu8, 0x8Du8, lo(0xD019), hi(0xD019),
        0xADu8, lo(0xDC0D), hi(0xDC0D), 0xADu8, lo(0xDD0D), hi(0xDD0D), 0xA9u8, 0xFFu8, 0x8Du8,
        lo(0xD019), hi(0xD019), 0xA9u8, v, 0x8Du8, lo(0xD01A), hi(0xD01A), 0xADu8, lo(0xDC0D),
        hi(0xDC0D), 0xADu8, lo(0xDD0D), hi(0xDD0D),
    ];
    let e1 = crate::patch_mem::enable_cia_irq(c.snap.cia1.ier, 0xDC0D);
    let e2 = crate::patch_mem::enable_cia_irq(c.snap.cia2.ier, 0xDD0D);
    let tail = seq![
        0xA9u8, c.snap.cia1.cra, 0x8Du8, lo(0xDC0E), hi(0xDC0E), 0xA9u8, c.snap.cia1.crb, 0x8Du8,
        lo(0xDC0F), hi(0xDC0F), 0xA9u8, c.snap.cia2.cra, 0x8Du8, lo(0xDD0E), hi(0xDD0E), 0xA9u8,
        c.snap.cia2.crb, 0x8Du8, lo(0xDD0F), hi(0xDD0F), 0xA9u8, c.snap.mem.cpu_port_data, 0x85u8,
        0x01u8, 0xA2u8, c.snap.cpu.x, 0xA0u8, c.snap.cpu.y, 0xA9u8, c.snap.cpu.a, 0x40u8,
    ];
    let all = primary(c);
    assert(head.len() == 42);
    assert(tail.len() == 31);
    assert(e1.len() == enable_len(c.snap.cia1.ier));
    assert(e2.len() == enable_len(c.snap.cia2.ier));
    assert(all =~= head + e1 + e2 + tail);
    let joined = head + e1 + e2 + tail;
    let t = timers_offset(c);
    assert forall|i: int| 0 <= i < 42 implies joined[i] == head[i] by {}
    assert forall|i: int| 0 <= i < 31 implies joined[t + i] == tail[i] by {}
    if c.snap.cia1.ier != 0 {
        assert forall|i: int| 0 <= i < 5 implies joined[42 + i] == e1[i] by {}
        assert(joined[42] == e1[0]);
        assert(joined[43] == e1[1]);
        assert(joined[44] == e1[2]);
        assert(joined[45] == e1[3]);
        assert(joined[46] == e1[4]);
    }
    if c.snap.cia2.ier != 0 {
        let at = 42 + enable_len(c.snap.cia1.ier);
        assert forall|i: int| 0 <= i < 5 implies joined[at + i] == e2[i] by {}
        assert(joined[at] == e2[0]);
        assert(joined[at + 1] == e2[1]);
        assert(joined[at + 2] == e2[2]);
        assert(joined[at + 3] == e2[3]);
        assert(joined[at + 4] == e2[4]);
    }
    assert(has_wipe_loop(joined, 0, b)) by {
        assert(joined[0] == head[0]);
        assert(joined[1] == head[1]);
        assert(joined[2] == head[2]);
        assert(joined[3] == head[3]);
        assert(joined[4] == head[4]);
        assert(joined[5] == head[5]);
    }
    assert(has_store_zp(joined, 6, 0x35, 0x01)) by {
        assert(joined[6] == head[6]);
        assert(joined[7] == head[7]);
        assert(joined[8] == head[8]);
        assert(joined[9] == head[9]);
    }
    assert(has_store_abs(joined, 10, 0x00, 0xD01A)) by {
        assert(joined[10] == head[10]);
        assert(joined[11] == head[11]);
        assert(joined[12] == head[12]);
        assert(joined[13] == head[13]);
        assert(joined[14] == head[14]);
    }
    assert(has_store_abs(joined, 15, 0xFF, 0xD019)) by {
        assert(joined[15] == head[15]);
        assert(joined[16] == head[16]);
        assert(joined[17] == head[17]);
        assert(joined[18] == head[18]);
        assert(joined[19] == head[19]);
    }
    assert(has_load_abs(joined, 20, 0xDC0D)) by {
        assert(joined[20] == head[20]);
        assert(joined[21] == head[21]);
        assert(joined[22] == head[22]);
    }
    assert(has_load_abs(joined, 23, 0xDD0D)) by {
        assert(joined[23] == head[23]);
        assert(joined[24] == head[24]);
        assert(joined[25] == head[25]);
    }
    assert(has_store_abs(joined, 26, 0xFF, 0xD019)) by {
        assert(joined[26] == head[26]);
        assert(joined[27] == head[27]);
        assert(joined[28] == head[28]);
        assert(joined[29] == head[29]);
        assert(joined[30] == head[30]);
    }
    assert(has_store_abs(joined, 31, v, 0xD01A)) by {
        assert(joined[31] == head[31]);
        assert(joined[32] == head[32]);
        assert(joined[33] == head[33]);
        assert(joined[34] == head[34]);
        assert(joined[35] == head[35]);
    }
    assert(has_load_abs(joined, 36, 0xDC0D)) by {
        assert(joined[36] == head[36]);
        assert(joined[37] == head[37]);
        assert(joined[38] == head[38]);
    }
    assert(has_load_abs(joined, 39, 0xDD0D)) by {
        assert(joined[39] == head[39]);
        assert(joined[40] == head[40]);
        assert(joined[41] == head[41]);
    }
    assert(has_store_abs(joined, t, c.snap.cia1.cra, 0xDC0E)) by {
        assert(joined[t + 0] == tail[0]);
        assert(joined[t + 1] == tail[1]);
        assert(joined[t + 2] == tail[2]);
        assert(joined[t + 3] == tail[3]);
        assert(joined[t + 4] == tail[4]);
    }
    assert(has_store_abs(joined, t + 5, c.snap.cia1.crb, 0xDC0F)) by {
        assert(joined[t + 5] == tail[5]);
        assert(joined[t + 6] == tail[6]);
        assert(joined[t + 7] == tail[7]);
        assert(joined[t + 8] == tail[8]);
        assert(joined[t + 9] == tail[9]);
    }
    assert(has_store_abs(joined, t + 10, c.snap.cia2.cra, 0xDD0E)) by {
        assert(joined[t + 10] == tail[10]);
        assert(joined[t + 11] == tail[11]);
        assert(joined[t + 12] == tail[12]);
        assert(joined[t + 13] == tail[13]);
        assert(joined[t + 14] == tail[14]);
    }
    assert(has_store_abs(joined, t + 15, c.snap.cia2.crb, 0xDD0F)) by {
        assert(joined[t + 15] == tail[15]);
        assert(joined[t + 16] == tail[16]);
        assert(joined[t + 17] == tail[17]);
        assert(joined[t + 18] == tail[18]);
        assert(joined[t + 19] == tail[19]);
    }
    assert(has_store_zp(joined, t + 20, c.snap.mem.cpu_port_data, 0x01)) by {
        assert(joined[t + 20] == tail[20]);
        assert(joined[t + 21] == tail[21]);
        assert(joined[t + 22] == tail[22]);
        assert(joined[t + 23] == tail[23]);
    }
    assert(has_return(joined, t + 24, c.snap.cpu)) by {
        assert(joined[t + 24] == tail[24]);
        assert(joined[t + 25] == tail[25]);
        assert(joined[t + 26] == tail[26]);
        assert(joined[t + 27] == tail[27]);
        assert(joined[t + 28] == tail[28]);
        assert(joined[t + 29] == tail[29]);
        assert(joined[t + 30] == tail[30]);
    }
}

} // verus!

verus! {

/// The routine for the stack page is in RAM.
#[verifier::rlimit(80)]
proof fn lemma_primary_in_ram(c: Setup, ram: Seq<u8>)
    requires
        setup_ok(c),
        rest_restored(c, ram),
    ensures
        has_primary(ram, primary_start(c), c),
        0x0100 <= primary_start(c),
        primary_start(c) + primary(c).len() <= 0x0200,
        forall|a: int|
            primary_start(c) <= a < primary_start(c) + primary(c).len() ==> !in_frame(c, a),
        primary(c).len() == timers_offset(c) + 31,
{
    lemma_primary_bytes(c);
    let start = primary_start(c);
    let code = primary(c);
    let w = with_primary(c);
    assert forall|i: int| 0 <= i < code.len() implies ram[start + i] == #[trigger] code[i] by {
        assert(!in_frame(c, start + i));
        assert(w[start + i] == code[i]);
    }
    lemma_has_primary_moved(c, code, ram, start);
}

/// Where RAM holds the bytes of the routine from `at` on, the routine lies
/// at `at`.
#[verifier::rlimit(80)]
proof fn lemma_has_primary_moved(c: Setup, code: Seq<u8>, ram: Seq<u8>, at: int)
    requires
        has_primary(code, 0, c),
        code.len() == timers_offset(c) + 31,
        forall|i: int| 0 <= i < code.len() ==> ram[at + i] == #[trigger] code[i],
    ensures
        has_primary(ram, at, c),
{
    let t = timers_offset(c);
    let e = 42 + enable_len(c.snap.cia1.ier);
    assert forall|i: int| 0 <= i < code.len() implies ram[at + i] == code[i] by {
        assert(ram[at + i] == code[i]);
    }
    assert(has_wipe_loop(ram, at, (c.blocks[9].address - 1) as u16)) by {
        assert(ram[at + 0] == code[0]);
        assert(ram[at + 1] == code[1]);
        assert(ram[at + 2] == code[2]);
        assert(ram[at + 3] == code[3]);
        assert(ram[at + 4] == code[4]);
        assert(ram[at + 5] == code[5]);
    }
    assert(has_store_zp(ram, at + 6, 0x35, 0x01)) by {
        assert(ram[at + 6] == code[6]);
        assert(ram[at + 7] == code[7]);
        assert(ram[at + 8] == code[8]);
        assert(ram[at + 9] == code[9]);
    }
    assert(has_store_abs(ram, at + 10, 0x00, 0xD01A)) by {
        lemma_store_abs_moved(code, ram, at, 10, 0x00, 0xD01A);
    }
    assert(has_store_abs(ram, at + 15, 0xFF, 0xD019)) by {
        lemma_store_abs_moved(code, ram, at, 15, 0xFF, 0xD019);
    }
    assert(has_load_abs(ram, at + 20, 0xDC0D)) by {
        lemma_load_abs_moved(code, ram, at, 20, 0xDC0D);
    }
    assert(has_load_abs(ram, at + 23, 0xDD0D)) by {
        lemma_load_abs_moved(code, ram, at, 23, 0xDD0D);
    }
    assert(has_store_abs(ram, at + 26, 0xFF, 0xD019)) by {
        lemma_store_abs_moved(code, ram, at, 26, 0xFF, 0xD019);
    }
    assert(has_store_abs(ram, at + 31, c.snap.vic.registers[0x1A], 0xD01A)) by {
        lemma_store_abs_moved(code, ram, at, 31, c.snap.vic.registers[0x1A], 0xD01A);
    }
    assert(has_load_abs(ram, at + 36, 0xDC0D)) by {
        lemma_load_abs_moved(code, ram, at, 36, 0xDC0D);
    }
    assert(has_load_abs(ram, at + 39, 0xDD0D)) by {
        lemma_load_abs_moved(code, ram, at, 39, 0xDD0D);
    }
    if c.snap.cia1.ier != 0 {
        lemma_store_abs_moved(code, ram, at, 42, c.snap.cia1.ier | 0x80, 0xDC0D);
    }
    if c.snap.cia2.ier != 0 {
        lemma_store_abs_moved(code, ram, at, e, c.snap.cia2.ier | 0x80, 0xDD0D);
    }
    lemma_store_abs_moved(code, ram, at, t, c.snap.cia1.cra, 0xDC0E);
    lemma_store_abs_moved(code, ram, at, t + 5, c.snap.cia1.crb, 0xDC0F);
    lemma_store_abs_moved(code, ram, at, t + 10, c.snap.cia2.cra, 0xDD0E);
    lemma_store_abs_moved(code, ram, at, t + 15, c.snap.cia2.crb, 0xDD0F);
    assert(has_store_zp(ram, at + t + 20, c.snap.mem.cpu_port_data, 0x01)) by {
        assert(ram[at + (t + 20)] == code[t + 20]);
        assert(ram[at + (t + 21)] == code[t + 21]);
        assert(ram[at + (t + 22)] == code[t + 22]);
        assert(ram[at + (t + 23)] == code[t + 23]);
    }
    assert(has_return(ram, at + t + 24, c.snap.cpu)) by {
        assert(ram[at + (t + 24)] == code[t + 24]);
        assert(ram[at + (t + 25)] == code[t + 25]);
        assert(ram[at + (t + 26)] == code[t + 26]);
        assert(ram[at + (t + 27)] == code[t + 27]);
        assert(ram[at + (t + 28)] == code[t + 28]);
        assert(ram[at + (t + 29)] == code[t + 29]);
        assert(ram[at + (t + 30)] == code[t + 30]);
    }
}

/// A store that lies at `off` in the code lies at `at + off` in RAM.
proof fn lemma_store_abs_moved(code: Seq<u8>, ram: Seq<u8>, at: int, off: int, value: u8, addr: u16)
    requires
        0 <= off,
        off + 5 <= code.len(),
        has_store_abs(code, off, value, addr),
        forall|i: int| 0 <= i < code.len() ==> ram[at + i] == #[trigger] code[i],
    ensures
        has_store_abs(ram, at + off, value, addr),
{
    assert(ram[at + (off + 0)] == code[off + 0]);
    assert(ram[at + (off + 1)] == code[off + 1]);
    assert(ram[at + (off + 2)] == code[off + 2]);
    assert(ram[at + (off + 3)] == code[off + 3]);
    assert(ram[at + (off + 4)] == code[off + 4]);
}

/// A load that lies at `off` in the code lies at `at + off` in RAM.
proof fn lemma_load_abs_moved(code: Seq<u8>, ram: Seq<u8>, at: int, off: int, addr: u16)
    requires
        0 <= off,
        off + 3 <= code.len(),
        has_load_abs(code, off, addr),
        forall|i: int| 0 <= i < code.len() ==> ram[at + i] == #[trigger] code[i],
    ensures
        has_load_abs(ram, at + off, addr),
{
    assert(ram[at + (off + 0)] == code[off + 0]);
    assert(ram[at + (off + 1)] == code[off + 1]);
    assert(ram[at + (off + 2)] == code[off + 2]);
}

/// The loop that refills block 10, from its head on with `k` bytes left.
#[verifier::rlimit(80)]
proof fn lemma_wipe_loop_from(m: Machine, at: int, base: u16, value: u8, k: int) -> (f: Machine)
    requires
        plain(m),
        0 <= at,
        at + 6 < 65536,
        has_wipe_loop(m.ram, at, base),
        m.pc == at,
        1 <= k <= 255,
        m.y == k,
        m.a == value,
        is_ram_range(base + 1, k),
        apart(base + 1, k, at, 6),
    ensures
        reaches(m, f),
        ram_filled(m, f, base + 1, k, value),
        f == (Machine {
            ram: f.ram,
            y: 0,
            zero: true,
            negative: false,
            pc: (at + 6) as u16,
            ..m
        }),
    decreases k,
{
    lemma_word_of_bytes(base);
    let m1 = step(m);
    crate::mos6502::lemma_sta_y(m, base);
    let m2 = step(m1);
    crate::mos6502::lemma_dey(m1);
    let m3 = step(m2);
    lemma_branch_back(m2, 6);
    lemma_reaches_step(m);
    lemma_reaches_step(m1);
    lemma_reaches_step(m2);
    lemma_reaches_trans(m, m1, m2);
    lemma_reaches_trans(m, m2, m3);
    if k == 1 {
        assert(ram_filled(m, m3, base + 1, 1, value));
        m3
    } else {
        let f = lemma_wipe_loop_from(m3, at, base, value, k - 1);
        lemma_reaches_trans(m, m3, f);
        assert(ram_filled(m, f, base + 1, k, value));
        f
    }
}

/// `LDA #value; STA addr` with `addr` a register of a chip that the port
/// shows: the write is recorded.
pub proof fn lemma_store_chip(m: Machine, value: u8, addr: u16) -> (f: Machine)
    requires
        m.ram.len() == 65536,
        m.pc + 5 < 65536,
        has_store_abs(m.ram, m.pc as int, value, addr),
        io_visible(m.port),
        0xD000 <= addr < 0xE000,
    ensures
        reaches(m, f),
        f == (Machine {
            chip_writes: m.chip_writes.push((addr, value)),
            a: value,
            zero: value == 0,
            negative: value >= 0x80,
            pc: (m.pc + 5) as u16,
            ..m
        }),
{
    lemma_word_of_bytes(addr);
    let m1 = step(m);
    lemma_lda(m, value);
    let m2 = step(m1);
    crate::mos6502::lemma_sta_chip(m1, addr);
    lemma_reaches_step(m);
    lemma_reaches_step(m1);
    lemma_reaches_trans(m, m1, m2);
    m2
}

/// `LDA addr` with `addr` a register of a chip that the port shows: the
/// accumulator and the flags take what the chip returns; nothing else but
/// the values that the chips will return changes.
pub proof fn lemma_load_chip(m: Machine, addr: u16) -> (f: Machine)
    requires
        m.ram.len() == 65536,
        m.pc + 3 < 65536,
        has_load_abs(m.ram, m.pc as int, addr),
        io_visible(m.port),
        0xD000 <= addr < 0xE000,
    ensures
        reaches(m, f),
        f == (Machine {
            a: f.a,
            zero: f.zero,
            negative: f.negative,
            chip_inputs: f.chip_inputs,
            pc: (m.pc + 3) as u16,
            ..m
        }),
{
    lemma_word_of_bytes(addr);
    let m1 = step(m);
    crate::mos6502::lemma_lda_chip(m, addr);
    lemma_reaches_step(m);
    m1
}

} // verus!

verus! {

/// All of RAM from the stack page on, and `$F8..=$FF`, is as the restored
/// machine has it.
pub open spec fn all_restored(c: Setup, ram: Seq<u8>) -> bool {
    &&& rest_restored(c, ram)
    &&& forall|a: int| SCAN_START <= a <= SCAN_END ==> #[trigger] ram[a] == c.ram0[a]
}

/// The write that enables the interrupts of an interface adapter, if the
/// snapshot had any enabled.
pub open spec fn enable_write(ier: u8, icr: u16) -> Seq<(u16, u8)> {
    if ier != 0 {
        seq![(icr, ier | 0x80)]
    } else {
        Seq::empty()
    }
}

/// The writes to the video chip that quiesce it and then enable its
/// interrupts as in the snapshot.
pub open spec fn video_writes(snap: SnapshotView) -> Seq<(u16, u8)> {
    seq![
        (0xD01Au16, 0x00u8),
        (0xD019u16, 0xFFu8),
        (0xD019u16, 0xFFu8),
        (0xD01Au16, snap.vic.registers[0x1A]),
    ]
}

/// The writes that start the timers of both interface adapters.
pub open spec fn timer_writes(snap: SnapshotView) -> Seq<(u16, u8)> {
    seq![
        (0xDC0Eu16, snap.cia1.cra),
        (0xDC0Fu16, snap.cia1.crb),
        (0xDD0Eu16, snap.cia2.cra),
        (0xDD0Fu16, snap.cia2.crb),
    ]
}

/// The writes to the chips that the routine for the stack page makes, in
/// order: the video chip is quiesced and its interrupts are enabled as in
/// the snapshot, then the interrupts of the interface adapters are enabled,
/// and last their timers are started.
pub open spec fn chip_writes_of(snap: SnapshotView) -> Seq<(u16, u8)> {
    video_writes(snap) + enable_write(snap.cia1.ier, 0xDC0D) + enable_write(snap.cia2.ier, 0xDD0D)
        + timer_writes(snap)
}

/// The machine is `off` bytes into the routine for the stack page, with the
/// chips shown and `writes` made to them; RAM is restored.
pub open spec fn in_primary(c: Setup, m0: Machine, m: Machine, off: int, writes: Seq<(u16, u8)>) -> bool {
    &&& all_restored(c, m.ram)
    &&& m.pc == primary_start(c) + off
    &&& io_visible(m.port)
    &&& m.port_dir == c.snap.mem.cpu_port_dir
    &&& m.sp == wrap_byte(c.snap.cpu.sp - 3)
    &&& !m.returned
    &&& m.chip_writes == m0.chip_writes + writes
}

/// The port value that shows the chips does show them.
proof fn lemma_io_port()
    ensures
        io_visible(0x35),
{
    assert(0x35u8 & 0x04 != 0 && 0x35u8 & 0x03 != 0) by (bit_vector);
}

/// The routine for the stack page refills block 10 and shows the chips.
#[verifier::rlimit(80)]
proof fn lemma_primary_wipe(c: Setup, m0: Machine, m: Machine) -> (f: Machine)
    requires
        setup_ok(c),
        at_primary(c, m0, m),
    ensures
        reaches(m, f),
        in_primary(c, m0, f, 10, Seq::empty()),
{
    lemma_primary_in_ram(c, m.ram);
    let start = primary_start(c);
    assert(c.blocks[9].size == 35);
    let base = (c.blocks[9].address - 1) as u16;
    let value = c.blocks[9].original_value;
    let m1 = lemma_wipe_loop_from(m, start, base, value, 35);
    assert(filled(c.ram0, c.blocks[9].address as int, 35, value));
    assert forall|a: int| SCAN_START <= a <= SCAN_END implies #[trigger] m1.ram[a]
        == c.ram0[a] by {
        if in_block(c.blocks, 9, a) {
            assert(m1.ram[a] == value);
        } else {
            assert(m1.ram[a] == m.ram[a]);
        }
    }
    assert(rest_restored(c, m1.ram));
    lemma_primary_in_ram(c, m1.ram);
    let m2 = step(m1);
    lemma_lda(m1, 0x35);
    let m3 = step(m2);
    crate::mos6502::lemma_sta_port(m2);
    lemma_io_port();
    lemma_reaches_step(m1);
    lemma_reaches_step(m2);
    lemma_reaches_trans(m1, m2, m3);
    lemma_reaches_trans(m, m1, m3);
    assert(m3.chip_writes =~= m0.chip_writes + Seq::<(u16, u8)>::empty());
    m3
}

/// The routine for the stack page quiesces the video chip, drains the
/// interface adapters, and enables the interrupts of the video chip.
#[verifier::rlimit(80)]
proof fn lemma_primary_video(c: Setup, m0: Machine, m: Machine) -> (f: Machine)
    requires
        setup_ok(c),
        in_primary(c, m0, m, 10, Seq::empty()),
    ensures
        reaches(m, f),
        in_primary(c, m0, f, 42, video_writes(c.snap)),
{
    lemma_primary_in_ram(c, m.ram);
    let m1 = lemma_store_chip(m, 0x00, 0xD01A);
    let m2 = lemma_store_chip(m1, 0xFF, 0xD019);
    let m3 = lemma_load_chip(m2, 0xDC0D);
    let m4 = lemma_load_chip(m3, 0xDD0D);
    lemma_reaches_trans(m, m1, m2);
    lemma_reaches_trans(m, m2, m3);
    lemma_reaches_trans(m, m3, m4);
    let m5 = lemma_store_chip(m4, 0xFF, 0xD019);
    let m6 = lemma_store_chip(m5, c.snap.vic.registers[0x1A], 0xD01A);
    let m7 = lemma_load_chip(m6, 0xDC0D);
    let m8 = lemma_load_chip(m7, 0xDD0D);
    lemma_reaches_trans(m, m4, m5);
    lemma_reaches_trans(m, m5, m6);
    lemma_reaches_trans(m, m6, m7);
    lemma_reaches_trans(m, m7, m8);
    assert(m8.chip_writes =~= m0.chip_writes + video_writes(c.snap));
    m8
}

/// The routine for the stack page enables the interrupts of the interface
/// adapters that had any enabled.
#[verifier::rlimit(80)]
proof fn lemma_primary_enable(c: Setup, m0: Machine, m: Machine) -> (f: Machine)
    requires
        setup_ok(c),
        in_primary(c, m0, m, 42, video_writes(c.snap)),
    ensures
        reaches(m, f),
        in_primary(
            c,
            m0,
            f,
            timers_offset(c),
            video_writes(c.snap) + enable_write(c.snap.cia1.ier, 0xDC0D) + enable_write(
                c.snap.cia2.ier,
                0xDD0D,
            ),
        ),
{
    lemma_primary_in_ram(c, m.ram);
    let m1 = if c.snap.cia1.ier != 0 {
        lemma_store_chip(m, c.snap.cia1.ier | 0x80, 0xDC0D)
    } else {
        crate::mos6502::lemma_reaches_self(m);
        m
    };
    assert(m1.chip_writes =~= m0.chip_writes + (video_writes(c.snap) + enable_write(
        c.snap.cia1.ier,
        0xDC0D,
    )));
    assert(m1.pc == primary_start(c) + 42 + enable_len(c.snap.cia1.ier));
    let m2 = if c.snap.cia2.ier != 0 {
        lemma_store_chip(m1, c.snap.cia2.ier | 0x80, 0xDD0D)
    } else {
        crate::mos6502::lemma_reaches_self(m1);
        m1
    };
    lemma_reaches_trans(m, m1, m2);
    assert(m2.chip_writes =~= m0.chip_writes + (video_writes(c.snap) + enable_write(
        c.snap.cia1.ier,
        0xDC0D,
    ) + enable_write(c.snap.cia2.ier, 0xDD0D)));
    m2
}

/// The routine for the stack page starts the timers.
#[verifier::rlimit(80)]
proof fn lemma_primary_timers(c: Setup, m0: Machine, m: Machine) -> (f: Machine)
    requires
        setup_ok(c),
        in_primary(
            c,
            m0,
            m,
            timers_offset(c),
            video_writes(c.snap) + enable_write(c.snap.cia1.ier, 0xDC0D) + enable_write(
                c.snap.cia2.ier,
                0xDD0D,
            ),
        ),
    ensures
        reaches(m, f),
        in_primary(c, m0, f, timers_offset(c) + 20, chip_writes_of(c.snap)),
{
    lemma_primary_in_ram(c, m.ram);
    let m1 = lemma_store_chip(m, c.snap.cia1.cra, 0xDC0E);
    let m2 = lemma_store_chip(m1, c.snap.cia1.crb, 0xDC0F);
    let m3 = lemma_store_chip(m2, c.snap.cia2.cra, 0xDD0E);
    let m4 = lemma_store_chip(m3, c.snap.cia2.crb, 0xDD0F);
    lemma_reaches_trans(m, m1, m2);
    lemma_reaches_trans(m, m2, m3);
    lemma_reaches_trans(m, m3, m4);
    assert(m4.chip_writes =~= m0.chip_writes + chip_writes_of(c.snap));
    m4
}

/// The machine is restored: the processor has returned into the snapshot's
/// program with the snapshot's registers, the port is as in the snapshot,
/// the chips were written to in order, and RAM is as before the patch: all
/// of it from `$0200` on, `$F8..=$FF` as in the snapshot, and the stack page
/// but for the routine that ran there and the three bytes of the frame below
/// the stack pointer.
pub open spec fn restored(c: Setup, m0: Machine, f: Machine) -> bool {
    &&& f.returned
    &&& f.pc == c.snap.cpu.pc
    &&& f.a == c.snap.cpu.a
    &&& f.x == c.snap.cpu.x
    &&& f.y == c.snap.cpu.y
    &&& f.sp == c.snap.cpu.sp
    &&& f.p == c.snap.cpu.p
    &&& f.port == c.snap.mem.cpu_port_data
    &&& f.port_dir == c.snap.mem.cpu_port_dir
    &&& f.chip_writes == m0.chip_writes + chip_writes_of(c.snap)
    &&& f.ram.len() == 65536
    &&& forall|a: int| 0x0200 <= a < 0x10000 ==> #[trigger] f.ram[a] == c.ram0[a]
    &&& forall|a: int| 0xF8 <= a < 0x0100 ==> #[trigger] f.ram[a] == c.snap.mem.ram[a]
    &&& forall|a: int|
        0x0100 <= a < 0x0200 && !in_frame(c, a) && !(primary_start(c) <= a < primary_start(c)
            + primary(c).len()) ==> #[trigger] f.ram[a] == c.ram0[a]
}

/// The routine for the stack page restores the port and the registers and
/// returns.
#[verifier::rlimit(80)]
proof fn lemma_primary_return(c: Setup, m0: Machine, m: Machine) -> (f: Machine)
    requires
        setup_ok(c),
        in_primary(c, m0, m, timers_offset(c) + 20, chip_writes_of(c.snap)),
    ensures
        reaches(m, f),
        restored(c, m0, f),
{
    lemma_primary_in_ram(c, m.ram);
    let cpu = c.snap.cpu;
    lemma_frame_pointers(cpu.sp);
    let m1 = step(m);
    lemma_lda(m, c.snap.mem.cpu_port_data);
    let m2 = step(m1);
    crate::mos6502::lemma_sta_port(m1);
    let m3 = step(m2);
    lemma_ldx(m2, cpu.x);
    let m4 = step(m3);
    crate::mos6502::lemma_ldy(m3, cpu.y);
    let m5 = step(m4);
    lemma_lda(m4, cpu.a);
    let m6 = step(m5);
    crate::mos6502::lemma_rti(m5);
    lemma_word_of_bytes(cpu.pc);
    lemma_reaches_step(m);
    lemma_reaches_step(m1);
    lemma_reaches_step(m2);
    lemma_reaches_step(m3);
    lemma_reaches_step(m4);
    lemma_reaches_step(m5);
    lemma_reaches_trans(m, m1, m2);
    lemma_reaches_trans(m, m2, m3);
    lemma_reaches_trans(m, m3, m4);
    lemma_reaches_trans(m, m4, m5);
    lemma_reaches_trans(m, m5, m6);
    assert(m6.ram == m.ram);
    assert forall|a: int|
        0x0100 <= a < 0x0200 && !in_frame(c, a) && !(primary_start(c) <= a < primary_start(c)
            + primary(c).len()) implies #[trigger] m6.ram[a] == c.ram0[a] by {
        assert(m6.ram[a] == with_primary(c)[a]);
    }
    m6
}

/// The restore routines bring the machine back.
///
/// From the state in which the decompressor leaves the machine, with RAM
/// from `$0200` to `$FFEF` as in the patched image and whatever else in the
/// rest, the routines of block 9, of block 10 and of the stack page run to
/// the return into the snapshot's program, and the machine is restored.
pub proof fn lemma_restore_runs(c: Setup, m0: Machine) -> (f: Machine)
    requires
        setup_ok(c),
        at_block9(c, m0),
    ensures
        reaches(m0, f),
        restored(c, m0, f),
{
    let m1 = lemma_block9(c, m0);
    let m2 = lemma_block10(c, m0, m1);
    let m3 = lemma_primary_wipe(c, m0, m2);
    let m4 = lemma_primary_video(c, m0, m3);
    let m5 = lemma_primary_enable(c, m0, m4);
    let m6 = lemma_primary_timers(c, m0, m5);
    let m7 = lemma_primary_return(c, m0, m6);
    lemma_reaches_trans(m0, m1, m2);
    lemma_reaches_trans(m0, m2, m3);
    lemma_reaches_trans(m0, m3, m4);
    lemma_reaches_trans(m0, m4, m5);
    lemma_reaches_trans(m0, m5, m6);
    lemma_reaches_trans(m0, m6, m7);
    m7
}

} // verus!

verus! {

/// Among the first `k` blocks, the one that a request for `n` bytes would be
/// served from, if one of them is large enough.
proof fn lemma_best_fit_among(blocks: Seq<RamBlock>, n: u16, k: int) -> (r: Option<int>)
    requires
        0 <= k <= blocks.len(),
    ensures
        r is None ==> forall|j: int| 0 <= j < k ==> (#[trigger] blocks[j]).count < n,
        r matches Some(i) ==> {
            &&& 0 <= i < k
            &&& blocks[i].count >= n
            &&& forall|j: int|
                0 <= j < k && (#[trigger] blocks[j]).count >= n ==> blocks[i].count
                    <= blocks[j].count
            &&& forall|j: int|
                0 <= j < i && (#[trigger] blocks[j]).count >= n ==> blocks[i].count
                    < blocks[j].count
        },
    decreases k,
{
    if k == 0 {
        None
    } else {
        let before = lemma_best_fit_among(blocks, n, k - 1);
        if blocks[k - 1].count >= n {
            match before {
                None => Some(k - 1),
                Some(i) => if blocks[k - 1].count < blocks[i].count {
                    Some(k - 1)
                } else {
                    Some(i)
                },
            }
        } else {
            before
        }
    }
}

/// A request that can be served is served from the best-fitting block.
pub proof fn lemma_best_fit_exists(blocks: Seq<RamBlock>, n: u16)
    requires
        can_allocate(blocks, n),
    ensures
        is_best_fit(blocks, n, best_fit_index(blocks, n)),
{
    let r = lemma_best_fit_among(blocks, n, blocks.len() as int);
    let j = choose|j: int| 0 <= j < blocks.len() && (#[trigger] blocks[j]).count >= n;
    assert(blocks[j].count >= n);
    assert(r is Some);
    assert(is_best_fit(blocks, n, r->0));
}

/// Address `a` lies in one of the blocks of the free list.
pub open spec fn is_free(free: Seq<RamBlock>, a: int) -> bool {
    exists|i: int|
        0 <= i < free.len() && (#[trigger] free[i]).address <= a < free[i].address + free[i].count
}

/// Taking bytes from the front of a block leaves a well-formed free list, in
/// which exactly the bytes taken are no longer free.
pub proof fn lemma_after_allocate(free: Seq<RamBlock>, ram0: Seq<u8>, n: u16, i: int)
    requires
        blocks_wf(free, ram0),
        n >= 1,
        is_best_fit(free, n, i),
    ensures
        blocks_wf(after_allocate(free, i, n), ram0),
        forall|a: int| #[trigger]
            is_free(after_allocate(free, i, n), a) <==> is_free(free, a) && !(free[i].address <= a
                < free[i].address + n),
{
    let after = after_allocate(free, i, n);
    let lo_taken = free[i].address as int;
    assert forall|a: int| #[trigger] is_free(after, a) implies is_free(free, a) && !(lo_taken <= a
        < lo_taken + n) by {
        let r = choose|r: int|
            0 <= r < after.len() && (#[trigger] after[r]).address <= a < after[r].address
                + after[r].count;
        if free[i].count == n {
            if r < i {
                assert(after[r] == free[r]);
                assert(free[r].address + free[r].count <= free[i].address);
            } else {
                assert(after[r] == free[r + 1]);
                assert(free[i].address + free[i].count <= free[r + 1].address);
            }
        } else {
            if r < i {
                assert(after[r] == free[r]);
                assert(free[r].address + free[r].count <= free[i].address);
            } else if r > i {
                assert(after[r] == free[r]);
                assert(free[i].address + free[i].count <= free[r].address);
            } else {
                assert(free[i].address <= a < free[i].address + free[i].count);
            }
        }
    }
    assert forall|a: int| is_free(free, a) && !(lo_taken <= a < lo_taken + n) implies #[trigger] is_free(
        after,
        a,
    ) by {
        let r = choose|r: int|
            0 <= r < free.len() && (#[trigger] free[r]).address <= a < free[r].address
                + free[r].count;
        if free[i].count == n {
            if r < i {
                assert(after[r] == free[r]);
            } else {
                assert(r > i);
                assert(after[r - 1] == free[r]);
            }
        } else {
            assert(after[r].address <= a < after[r].address + after[r].count);
        }
    }
    if free[i].count == n {
        assert forall|x: int, y: int| 0 <= x < y < after.len() implies (#[trigger] after[x]).address
            + after[x].count <= (#[trigger] after[y]).address by {
            let fx = if x < i {
                x
            } else {
                x + 1
            };
            let fy = if y < i {
                y
            } else {
                y + 1
            };
            assert(after[x] == free[fx]);
            assert(after[y] == free[fy]);
            assert(free[fx].address + free[fx].count <= free[fy].address);
        }
        assert forall|x: int| 0 <= x < after.len() implies (#[trigger] after[x]).count >= 1
            && after[x].address >= SCAN_START && after[x].address + after[x].count <= SCAN_END + 1
            && filled(ram0, after[x].address as int, after[x].count as int, after[x].value) by {
            let fx = if x < i {
                x
            } else {
                x + 1
            };
            assert(after[x] == free[fx]);
        }
    } else {
        assert forall|x: int, y: int| 0 <= x < y < after.len() implies (#[trigger] after[x]).address
            + after[x].count <= (#[trigger] after[y]).address by {
            assert(free[x].address + free[x].count <= free[y].address);
        }
        assert forall|x: int| 0 <= x < after.len() implies (#[trigger] after[x]).count >= 1
            && after[x].address >= SCAN_START && after[x].address + after[x].count <= SCAN_END + 1
            && filled(ram0, after[x].address as int, after[x].count as int, after[x].value) by {
            assert(free[x].count >= 1);
        }
    }
}

/// The blocks that the first `k` requests take.
pub open spec fn blocks_taken(free: Seq<RamBlock>, k: int) -> Seq<BlockAllocation> {
    match allocations(free, k) {
        Some((done, _)) => done,
        None => Seq::empty(),
    }
}

/// The free list that the first `k` requests leave.
pub open spec fn blocks_left(free: Seq<RamBlock>, k: int) -> Seq<RamBlock> {
    match allocations(free, k) {
        Some((_, rest)) => rest,
        None => Seq::empty(),
    }
}

/// What holds of the blocks taken and of the free list after the first `k`
/// requests: the blocks have their sizes, lie in the scanned window and hold
/// their run bytes in the image; they have no address in common with each
/// other, and none of their addresses is free any more.
pub open spec fn taken_ok(done: Seq<BlockAllocation>, rest: Seq<RamBlock>, ram0: Seq<u8>, k: int) -> bool {
    &&& done.len() == k
    &&& blocks_wf(rest, ram0)
    &&& forall|j: int| 0 <= j < k ==> (#[trigger] done[j]).size == block_size(j)
    &&& forall|j: int|
        0 <= j < k ==> SCAN_START <= (#[trigger] done[j]).address && done[j].address
            + done[j].size <= SCAN_END + 1
    &&& forall|j: int|
        0 <= j < k ==> filled(
            ram0,
            (#[trigger] done[j]).address as int,
            done[j].size as int,
            done[j].original_value,
        )
    &&& forall|i: int, j: int|
        0 <= i < j < k ==> apart(
            (#[trigger] done[i]).address as int,
            done[i].size as int,
            (#[trigger] done[j]).address as int,
            done[j].size as int,
        )
    &&& forall|j: int, a: int|
        0 <= j < k && (#[trigger] done[j]).address <= a < done[j].address + done[j].size
            ==> !#[trigger] is_free(rest, a)
}

/// The blocks that the first `k` requests take from a well-formed free list
/// are as patching needs them.
#[verifier::rlimit(80)]
pub proof fn lemma_allocations_taken(free: Seq<RamBlock>, ram0: Seq<u8>, k: int)
    requires
        blocks_wf(free, ram0),
        0 <= k <= BLOCK_COUNT,
        allocations(free, k) is Some,
    ensures
        taken_ok(blocks_taken(free, k), blocks_left(free, k), ram0, k),
    decreases k,
{
    if k > 0 {
        assert(allocations(free, k - 1) is Some);
        lemma_allocations_taken(free, ram0, k - 1);
        let done = blocks_taken(free, k - 1);
        let rest = blocks_left(free, k - 1);
        let size = block_size(k - 1);
        assert(can_allocate(rest, size));
        lemma_best_fit_exists(rest, size);
        let i = best_fit_index(rest, size);
        lemma_after_allocate(rest, ram0, size, i);
        let block = BlockAllocation {
            address: rest[i].address,
            original_value: rest[i].value,
            size,
        };
        let now = done.push(block);
        let left = after_allocate(rest, i, size);
        assert(allocations(free, k) == Some((now, left)));
        assert(rest[i].count >= size);
        assert(filled(ram0, rest[i].address as int, rest[i].count as int, rest[i].value));
        assert forall|a: int| block.address <= a < block.address + size implies is_free(rest, a) by {
            assert(rest[i].address <= a < rest[i].address + rest[i].count);
        }
        assert forall|x: int, y: int| 0 <= x < y < k implies apart(
            (#[trigger] now[x]).address as int,
            now[x].size as int,
            (#[trigger] now[y]).address as int,
            now[y].size as int,
        ) by {
            if y == k - 1 {
                assert(now[x] == done[x]);
                if !apart(
                    done[x].address as int,
                    done[x].size as int,
                    block.address as int,
                    size as int,
                ) {
                    let a = if done[x].address >= block.address {
                        done[x].address as int
                    } else {
                        block.address as int
                    };
                    assert(done[x].address <= a < done[x].address + done[x].size);
                    assert(is_free(rest, a));
                    assert(!is_free(rest, a));
                }
            } else {
                assert(now[x] == done[x]);
                assert(now[y] == done[y]);
            }
        }
        assert forall|j: int, a: int|
            0 <= j < k && (#[trigger] now[j]).address <= a < now[j].address
                + now[j].size implies !#[trigger] is_free(left, a) by {
            if j < k - 1 {
                assert(now[j] == done[j]);
                assert(!is_free(rest, a));
            }
        }
        assert forall|j: int| 0 <= j < k implies (#[trigger] now[j]).size == block_size(j) by {
            if j < k - 1 {
                assert(now[j] == done[j]);
            }
        }
        assert forall|j: int| 0 <= j < k implies SCAN_START <= (#[trigger] now[j]).address
            && now[j].address + now[j].size <= SCAN_END + 1 by {
            if j < k - 1 {
                assert(now[j] == done[j]);
            }
        }
        assert forall|j: int| 0 <= j < k implies filled(
            ram0,
            (#[trigger] now[j]).address as int,
            now[j].size as int,
            now[j].original_value,
        ) by {
            if j < k - 1 {
                assert(now[j] == done[j]);
            }
        }
    }
}

/// What patching leaves behind is undone when the machine runs.
///
/// Let the image `ram0` be patched with blocks taken from a free list that
/// is well formed for it, and let the stack pointer be 2 at least, so that
/// the frame for the return does not wrap round the stack page. The routine
/// for the stack page may lie below the stack pointer or, where it does not
/// fit there, at the end of the page. Then from any state of the machine in which RAM from
/// `$0200` to `$FFEF` is the patched image, the port hides the chips and the
/// processor is at block 9, the routines run to the return into the
/// snapshot's program: the registers are the snapshot's; every byte from
/// `$0200` on, so every block, holds what it held before the patch; the
/// vector tail is back, `$F8..=$FF` is as in the snapshot, and the stack page
/// is as before the patch but for the routine that ran there and the three
/// bytes of the frame below the stack pointer.
pub proof fn lemma_patch_is_undone(snap: SnapshotView, ram0: Seq<u8>, free: Seq<RamBlock>, m0: Machine) -> (f:
    Machine)
    requires
        blocks_wf(free, ram0),
        snap.mem.ram.len() == 65536,
        allocations(free, BLOCK_COUNT as int) is Some,
        snap.cpu.sp >= 2,
        at_block9(Setup { snap, ram0, blocks: blocks_taken(free, BLOCK_COUNT as int) }, m0),
    ensures
        reaches(m0, f),
        restored(Setup { snap, ram0, blocks: blocks_taken(free, BLOCK_COUNT as int) }, m0, f),
{
    let blocks = blocks_taken(free, BLOCK_COUNT as int);
    let c = Setup { snap, ram0, blocks };
    lemma_allocations_taken(free, ram0, BLOCK_COUNT as int);
    assert(layout_ok(blocks, ram0));
    lemma_restore_runs(c, m0)
}

} // verus!
