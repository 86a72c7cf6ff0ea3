//! Free-memory finder and allocator.
//!
//! A 64 KiB image is scanned for runs of at least 32 identical bytes between
//! `$0200` and `$FFEF`. Each run is a free block: it can be overwritten with
//! scaffolding and later refilled with its repeated byte. Blocks are handed out
//! best fit.

use vstd::prelude::*;

verus! {

/// First address that is scanned.
pub const SCAN_START: usize = 0x0200;

/// Last address that is scanned.
pub const SCAN_END: usize = 0xFFEF;

/// Shortest run that becomes a block.
pub const MIN_SEQUENCE_LEN: usize = 32;

/// A run of `count` bytes at `address`, all equal to `value`.
#[derive(Debug, Clone, Copy, PartialEq, Eq, Structural)]
pub struct RamBlock {
    pub address: u16,
    pub value: u8,
    pub count: u16,
}

/// Every byte of `ram` in `[start, start + len)` equals `value`.
pub open spec fn filled(ram: Seq<u8>, start: int, len: int, value: u8) -> bool {
    forall|k: int| start <= k < start + len ==> #[trigger] ram[k] == value
}

/// `[start, start + len)` is a run of equal bytes inside the scanned window
/// that can be extended neither to the left nor to the right.
pub open spec fn is_maximal_run(ram: Seq<u8>, start: int, len: int) -> bool {
    &&& SCAN_START <= start
    &&& len >= 1
    &&& start + len <= SCAN_END + 1
    &&& filled(ram, start, len, ram[start])
    &&& (start == SCAN_START || ram[start - 1] != ram[start])
    &&& (start + len == SCAN_END + 1 || ram[start + len] != ram[start])
}

/// The block stands for a maximal run of `ram` that is long enough.
pub open spec fn is_long_run(ram: Seq<u8>, b: RamBlock) -> bool {
    &&& b.count >= MIN_SEQUENCE_LEN
    &&& is_maximal_run(ram, b.address as int, b.count as int)
    &&& b.value == ram[b.address as int]
}

/// The blocks lie inside the scanned window, each is a constant stretch of
/// `image`, and they ascend by address without overlap.
pub open spec fn blocks_wf(blocks: Seq<RamBlock>, image: Seq<u8>) -> bool {
    &&& image.len() == 65536
    &&& forall|i: int|
        0 <= i < blocks.len() ==> {
            &&& (#[trigger] blocks[i]).count >= 1
            &&& blocks[i].address >= SCAN_START
            &&& blocks[i].address + blocks[i].count <= SCAN_END + 1
            &&& filled(image, blocks[i].address as int, blocks[i].count as int, blocks[i].value)
        }
    &&& forall|i: int, j: int|
        0 <= i < j < blocks.len() ==> (#[trigger] blocks[i]).address + blocks[i].count <= (
        #[trigger] blocks[j]).address
}

/// `blocks` is the free list of a fresh scan of `ram`: exactly the maximal
/// runs of at least 32 bytes, in ascending address order.
pub open spec fn is_scan_of(blocks: Seq<RamBlock>, ram: Seq<u8>) -> bool {
    &&& blocks_wf(blocks, ram)
    &&& forall|i: int| 0 <= i < blocks.len() ==> is_long_run(ram, #[trigger] blocks[i])
    &&& forall|s: int, l: int|
        #[trigger] is_maximal_run(ram, s, l) && l >= MIN_SEQUENCE_LEN ==> exists|i: int|
            0 <= i < blocks.len() && (#[trigger] blocks[i]).address == s && blocks[i].count == l
}

/// The free list of a fresh scan of `ram`.
pub open spec fn free_blocks(ram: Seq<u8>) -> Seq<RamBlock> {
    choose|blocks: Seq<RamBlock>| is_scan_of(blocks, ram)
}

/// Block `i` is the one that a request for `n` bytes is served from: the
/// smallest block that fits, and among equally small ones the first.
pub open spec fn is_best_fit(blocks: Seq<RamBlock>, n: u16, i: int) -> bool {
    &&& 0 <= i < blocks.len()
    &&& blocks[i].count >= n
    &&& forall|j: int|
        0 <= j < blocks.len() && (#[trigger] blocks[j]).count >= n ==> blocks[i].count
            <= blocks[j].count
    &&& forall|j: int|
        0 <= j < i && (#[trigger] blocks[j]).count >= n ==> blocks[i].count < blocks[j].count
}

/// A request for `n` bytes can be served.
pub open spec fn can_allocate(blocks: Seq<RamBlock>, n: u16) -> bool {
    n > 0 && exists|j: int| 0 <= j < blocks.len() && (#[trigger] blocks[j]).count >= n
}

/// The index of the block that a request for `n` bytes is served from.
pub open spec fn best_fit_index(blocks: Seq<RamBlock>, n: u16) -> int {
    choose|i: int| is_best_fit(blocks, n, i)
}

/// The free list after `n` bytes were taken from the front of block `i`.
pub open spec fn after_allocate(blocks: Seq<RamBlock>, i: int, n: u16) -> Seq<RamBlock> {
    if blocks[i].count == n {
        blocks.remove(i)
    } else {
        blocks.update(
            i,
            RamBlock {
                address: (blocks[i].address + n) as u16,
                value: blocks[i].value,
                count: (blocks[i].count - n) as u16,
            },
        )
    }
}

/// Sum of the block lengths.
pub open spec fn total_count(blocks: Seq<RamBlock>) -> int
    decreases blocks.len(),
{
    if blocks.len() == 0 {
        0
    } else {
        total_count(blocks.drop_last()) + blocks.last().count
    }
}

/// The free list of one image.
pub struct FindRam {
    blocks: Vec<RamBlock>,
    image: Ghost<Seq<u8>>,
}

impl View for FindRam {
    type V = Seq<RamBlock>;

    closed spec fn view(&self) -> Seq<RamBlock> {
        self.blocks@
    }
}

/// Finds where the run through `p` begins.
proof fn lemma_run_start(ram: Seq<u8>, p: int) -> (s: int)
    requires
        SCAN_START <= p <= SCAN_END,
    ensures
        SCAN_START <= s <= p,
        filled(ram, s, p - s + 1, ram[p]),
        s == SCAN_START || ram[s - 1] != ram[s],
    decreases p,
{
    if p == SCAN_START || ram[p - 1] != ram[p] {
        p
    } else {
        lemma_run_start(ram, p - 1)
    }
}

/// A block of a well-formed list ends no later than the sum of the lengths up
/// to it allows: the lengths of the first `k` blocks fit below the end of
/// block `k - 1`.
proof fn lemma_total_bounded(blocks: Seq<RamBlock>, image: Seq<u8>, k: int)
    requires
        blocks_wf(blocks, image),
        0 <= k <= blocks.len(),
    ensures
        0 <= total_count(blocks.take(k)),
        k == 0 ==> total_count(blocks.take(k)) == 0,
        k > 0 ==> SCAN_START + total_count(blocks.take(k)) <= blocks[k - 1].address + blocks[k
            - 1].count,
    decreases k,
{
    if k > 0 {
        lemma_total_bounded(blocks, image, k - 1);
        assert(blocks.take(k).drop_last() =~= blocks.take(k - 1));
        assert(blocks.take(k).last() == blocks[k - 1]);
        if k > 1 {
            assert(blocks[k - 2].address + blocks[k - 2].count <= blocks[k - 1].address);
        }
    }
}

impl FindRam {
    /// The image that the list was scanned from.
    pub closed spec fn image(&self) -> Seq<u8> {
        self.image@
    }

    /// The list is well formed with respect to its image.
    pub open spec fn wf(&self) -> bool {
        blocks_wf(self@, self.image())
    }

    /// Scans `ram` from `$0200` to `$FFEF` for runs of at least 32 equal bytes.
    pub fn new(ram: &[u8; 65536]) -> (r: Self)
        ensures
            r.wf(),
            r.image() == ram@,
            is_scan_of(r@, ram@),
            r@ == free_blocks(ram@),
    {
        let mut blocks: Vec<RamBlock> = Vec::new();
        let mut addr: usize = SCAN_START;
        while addr <= SCAN_END
            invariant
                SCAN_START <= addr <= SCAN_END + 1,
                blocks_wf(blocks@, ram@),
                forall|i: int| 0 <= i < blocks@.len() ==> is_long_run(ram@, #[trigger] blocks@[i]),
                forall|i: int|
                    0 <= i < blocks@.len() ==> (#[trigger] blocks@[i]).address + blocks@[i].count
                        <= addr,
                forall|s: int, l: int|
                    #[trigger] is_maximal_run(ram@, s, l) && l >= MIN_SEQUENCE_LEN ==> s >= addr
                        || s + l <= addr,
                forall|s: int, l: int|
                    #[trigger] is_maximal_run(ram@, s, l) && l >= MIN_SEQUENCE_LEN && s < addr
                        ==> exists|i: int|
                        0 <= i < blocks@.len() && (#[trigger] blocks@[i]).address == s
                            && blocks@[i].count == l,
            decreases SCAN_END + 1 - addr,
        {
            let current_value = ram[addr];
            let mut count: usize = 1;
            while addr + count <= SCAN_END && ram[addr + count] == current_value
                invariant
                    SCAN_START <= addr <= SCAN_END,
                    1 <= count,
                    addr + count <= SCAN_END + 1,
                    current_value == ram@[addr as int],
                    filled(ram@, addr as int, count as int, current_value),
                decreases SCAN_END + 1 - addr - count,
            {
                count += 1;
            }
            let ghost old_blocks = blocks@;
            if count >= MIN_SEQUENCE_LEN {
                proof {
                    if addr > SCAN_START && ram@[addr - 1] == ram@[addr as int] {
                        let s = lemma_run_start(ram@, addr - 1);
                        assert(is_maximal_run(ram@, s, addr + count - s));
                    }
                    assert(is_maximal_run(ram@, addr as int, count as int));
                }
                let block = RamBlock {
                    address: addr as u16,
                    value: current_value,
                    count: count as u16,
                };
                blocks.push(block);
                proof {
                    assert forall|s: int, l: int|
                        #[trigger] is_maximal_run(ram@, s, l) && l >= MIN_SEQUENCE_LEN && s < addr
                            + count implies exists|i: int|
                        0 <= i < blocks@.len() && (#[trigger] blocks@[i]).address == s
                            && blocks@[i].count == l by {
                        if s < addr {
                            let i = choose|i: int|
                                0 <= i < old_blocks.len() && (#[trigger] old_blocks[i]).address
                                    == s && old_blocks[i].count == l;
                            assert(blocks@[i] == old_blocks[i]);
                        } else {
                            assert(s == addr);
                            assert(l == count);
                            assert(blocks@[old_blocks.len() as int] == block);
                        }
                    }
                }
                addr += count;
            } else {
                addr += 1;
            }
        }
        proof {
            lemma_scan_unique(blocks@, free_blocks(ram@), ram@);
        }
        FindRam { blocks, image: Ghost(ram@) }
    }

    /// Length of the longest block, 0 when the list is empty.
    pub fn find_max(&self) -> (r: u16)
        ensures
            forall|i: int| 0 <= i < self@.len() ==> (#[trigger] self@[i]).count <= r,
            self@.len() == 0 ==> r == 0,
            self@.len() > 0 ==> exists|i: int| 0 <= i < self@.len() && (#[trigger] self@[i]).count == r,
    {
        let mut best: u16 = 0;
        let mut i: usize = 0;
        while i < self.blocks.len()
            invariant
                0 <= i <= self.blocks@.len(),
                forall|j: int| 0 <= j < i ==> (#[trigger] self.blocks@[j]).count <= best,
                i == 0 ==> best == 0,
                i > 0 ==> exists|j: int| 0 <= j < i && (#[trigger] self.blocks@[j]).count == best,
            decreases self.blocks@.len() - i,
        {
            if self.blocks[i].count > best || i == 0 {
                best = self.blocks[i].count;
            }
            i += 1;
        }
        best
    }

    /// Takes `requested_count` bytes from the front of the best-fitting block.
    ///
    /// Returns the address of the bytes taken and the byte they all hold, or
    /// `None` when nothing is requested or no block is large enough. An emptied
    /// block leaves the list; a larger one keeps its tail.
    pub fn allocate(&mut self, requested_count: u16) -> (r: Option<(u16, u8)>)
        requires
            old(self).wf(),
        ensures
            final(self).wf(),
            final(self).image() == old(self).image(),
            r is Some <==> can_allocate(old(self)@, requested_count),
            r is None ==> final(self)@ == old(self)@,
            r matches Some((address, value)) ==> {
                let i = best_fit_index(old(self)@, requested_count);
                &&& is_best_fit(old(self)@, requested_count, i)
                &&& address == old(self)@[i].address
                &&& value == old(self)@[i].value
                &&& final(self)@ == after_allocate(old(self)@, i, requested_count)
                &&& filled(old(self).image(), address as int, requested_count as int, value)
                &&& SCAN_START <= address
                &&& address + requested_count <= SCAN_END + 1
            },
    {
        if requested_count == 0 {
            return None;
        }
        let mut best: Option<usize> = None;
        let mut k: usize = 0;
        while k < self.blocks.len()
            invariant
                0 <= k <= self.blocks@.len(),
                self.blocks@ == old(self).blocks@,
                best is None ==> forall|j: int|
                    0 <= j < k ==> (#[trigger] self.blocks@[j]).count < requested_count,
                best matches Some(b) ==> {
                    &&& b < k
                    &&& self.blocks@[b as int].count >= requested_count
                    &&& forall|j: int|
                        0 <= j < k && (#[trigger] self.blocks@[j]).count >= requested_count
                            ==> self.blocks@[b as int].count <= self.blocks@[j].count
                    &&& forall|j: int|
                        0 <= j < b && (#[trigger] self.blocks@[j]).count >= requested_count
                            ==> self.blocks@[b as int].count < self.blocks@[j].count
                },
            decreases self.blocks@.len() - k,
        {
            if self.blocks[k].count >= requested_count {
                match best {
                    None => {
                        best = Some(k);
                    },
                    Some(b) => {
                        if self.blocks[k].count < self.blocks[b].count {
                            best = Some(k);
                        }
                    },
                }
            }
            k += 1;
        }
        match best {
            None => None,
            Some(index) => {
                let block = self.blocks[index];
                let remaining_count: u16 = block.count - requested_count;
                proof {
                    assert(is_best_fit(old(self)@, requested_count, index as int));
                    lemma_best_fit_unique(
                        old(self)@,
                        requested_count,
                        index as int,
                        best_fit_index(old(self)@, requested_count),
                    );
                }
                if remaining_count == 0 {
                    self.blocks.remove(index);
                } else {
                    let rest = RamBlock {
                        address: block.address + requested_count,
                        value: block.value,
                        count: remaining_count,
                    };
                    self.blocks.set(index, rest);
                }
                assert(self.blocks@ == after_allocate(old(self)@, index as int, requested_count));
                Some((block.address, block.value))
            },
        }
    }

    /// Number of blocks in the list.
    pub fn block_count(&self) -> (r: usize)
        ensures
            r == self@.len(),
    {
        self.blocks.len()
    }

    /// Number of free bytes in all blocks together.
    pub fn total_free_bytes(&self) -> (r: u32)
        requires
            self.wf(),
        ensures
            r == total_count(self@),
    {
        let mut sum: u32 = 0;
        let mut i: usize = 0;
        while i < self.blocks.len()
            invariant
                0 <= i <= self.blocks@.len(),
                self.wf(),
                sum == total_count(self.blocks@.take(i as int)),
            decreases self.blocks@.len() - i,
        {
            proof {
                lemma_total_bounded(self.blocks@, self.image@, i as int);
                lemma_total_bounded(self.blocks@, self.image@, i + 1);
                assert(self.blocks@.take(i + 1).drop_last() =~= self.blocks@.take(i as int));
            }
            sum = sum + self.blocks[i].count as u32;
            i += 1;
        }
        assert(self.blocks@.take(i as int) =~= self.blocks@);
        sum
    }

    /// The blocks, in ascending address order.
    pub fn blocks(&self) -> (r: &[RamBlock])
        ensures
            r@ == self@,
    {
        self.blocks.as_slice()
    }
}

} // verus!

verus! {

/// A scan of an image that holds one byte throughout the scanned window yields
/// exactly one block, which covers the whole window.
pub proof fn lemma_scan_of_constant_image(blocks: Seq<RamBlock>, ram: Seq<u8>, value: u8)
    requires
        is_scan_of(blocks, ram),
        filled(ram, SCAN_START as int, SCAN_END + 1 - SCAN_START, value),
    ensures
        blocks =~= seq![RamBlock { address: 0x0200, value, count: 0xFDF0 }],
{
    assert(is_maximal_run(ram, 0x0200, 0xFDF0));
    let i = choose|i: int|
        0 <= i < blocks.len() && (#[trigger] blocks[i]).address == 0x0200 && blocks[i].count
            == 0xFDF0;
    assert(is_long_run(ram, blocks[i]));
    if blocks.len() != 1 {
        let j: int = if i == 0 { 1 } else { 0 };
        assert(is_long_run(ram, blocks[j]));
        if j < i {
            assert(blocks[j].address + blocks[j].count <= blocks[i].address);
        } else {
            assert(blocks[i].address + blocks[i].count <= blocks[j].address);
        }
    }
}

/// At most one block is the best fit for a request.
pub proof fn lemma_best_fit_unique(blocks: Seq<RamBlock>, n: u16, i: int, j: int)
    requires
        is_best_fit(blocks, n, i),
        is_best_fit(blocks, n, j),
    ensures
        i == j,
{
}

/// Where some block has exactly the requested length, the request is served
/// from the first such block, which then leaves the list.
pub proof fn lemma_exact_match_removed(blocks: Seq<RamBlock>, n: u16, k: int, i: int)
    requires
        0 <= k < blocks.len(),
        blocks[k].count == n,
        is_best_fit(blocks, n, i),
    ensures
        i <= k,
        blocks[i].count == n,
        forall|j: int| 0 <= j < i ==> (#[trigger] blocks[j]).count != n,
        after_allocate(blocks, i, n) == blocks.remove(i),
{
}

/// Where the best-fitting block is longer than the request, the list keeps its
/// length, every other block is untouched, and the chosen block shrinks to the
/// bytes behind those taken.
pub proof fn lemma_partial_fit_splits(blocks: Seq<RamBlock>, image: Seq<u8>, n: u16, i: int)
    requires
        blocks_wf(blocks, image),
        is_best_fit(blocks, n, i),
        blocks[i].count > n,
    ensures
        after_allocate(blocks, i, n).len() == blocks.len(),
        after_allocate(blocks, i, n)[i].address == blocks[i].address + n,
        after_allocate(blocks, i, n)[i].count == blocks[i].count - n,
        after_allocate(blocks, i, n)[i].value == blocks[i].value,
        forall|j: int|
            0 <= j < blocks.len() && j != i ==> #[trigger] after_allocate(blocks, i, n)[j]
                == blocks[j],
{
}

/// A maximal run is determined by where it starts.
pub proof fn lemma_run_length_unique(ram: Seq<u8>, start: int, a: int, b: int)
    requires
        is_maximal_run(ram, start, a),
        is_maximal_run(ram, start, b),
    ensures
        a == b,
{
    if a < b {
        assert(ram[start + a] == ram[start]);
    }
    if b < a {
        assert(ram[start + b] == ram[start]);
    }
}

/// Two scans of one image agree on their first `k` blocks.
proof fn lemma_scan_prefix(a: Seq<RamBlock>, b: Seq<RamBlock>, ram: Seq<u8>, k: int)
    requires
        is_scan_of(a, ram),
        is_scan_of(b, ram),
        0 <= k <= a.len(),
        k <= b.len(),
    ensures
        forall|j: int| 0 <= j < k ==> a[j] == b[j],
    decreases k,
{
    if k > 0 {
        lemma_scan_prefix(a, b, ram, k - 1);
        let x = a[k - 1];
        let y = b[k - 1];
        assert(is_long_run(ram, x));
        assert(is_long_run(ram, y));
        let m = choose|m: int|
            0 <= m < b.len() && (#[trigger] b[m]).address == x.address as int && b[m].count
                == x.count as int;
        if m < k - 1 {
            assert(a[m] == b[m]);
            assert(a[m].address + a[m].count <= a[k - 1].address);
        }
        if m > k - 1 {
            assert(b[k - 1].address + b[k - 1].count <= b[m].address);
        }
        let n = choose|n: int|
            0 <= n < a.len() && (#[trigger] a[n]).address == y.address as int && a[n].count
                == y.count as int;
        if n < k - 1 {
            assert(a[n] == b[n]);
            assert(b[n].address + b[n].count <= b[k - 1].address);
        }
        if n > k - 1 {
            assert(a[k - 1].address + a[k - 1].count <= a[n].address);
        }
        assert(x.address == y.address);
        lemma_run_length_unique(ram, x.address as int, x.count as int, y.count as int);
    }
}

/// An image has one free list: the scan is determined by the image.
pub proof fn lemma_scan_unique(a: Seq<RamBlock>, b: Seq<RamBlock>, ram: Seq<u8>)
    requires
        is_scan_of(a, ram),
    ensures
        is_scan_of(b, ram) ==> a == b,
        a == free_blocks(ram),
{
    let c = free_blocks(ram);
    assert(is_scan_of(c, ram));
    lemma_scan_same(a, c, ram);
    if is_scan_of(b, ram) {
        lemma_scan_same(a, b, ram);
    }
}

/// Two scans of one image are equal.
proof fn lemma_scan_same(a: Seq<RamBlock>, b: Seq<RamBlock>, ram: Seq<u8>)
    requires
        is_scan_of(a, ram),
        is_scan_of(b, ram),
    ensures
        a == b,
{
    if a.len() <= b.len() {
        lemma_scan_prefix(a, b, ram, a.len() as int);
        if a.len() < b.len() {
            let y = b[a.len() as int];
            assert(is_long_run(ram, y));
            let n = choose|n: int|
                0 <= n < a.len() && (#[trigger] a[n]).address == y.address as int && a[n].count
                    == y.count as int;
            assert(a[n] == b[n]);
            assert(b[n].address + b[n].count <= b[a.len() as int].address);
        }
    } else {
        lemma_scan_prefix(a, b, ram, b.len() as int);
        let x = a[b.len() as int];
        assert(is_long_run(ram, x));
        let m = choose|m: int|
            0 <= m < b.len() && (#[trigger] b[m]).address == x.address as int && b[m].count
                == x.count as int;
        assert(a[m] == b[m]);
        assert(a[m].address + a[m].count <= a[b.len() as int].address);
    }
    assert(a =~= b);
}

} // verus!
