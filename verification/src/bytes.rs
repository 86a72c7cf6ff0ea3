//! Byte-level helpers shared by the patcher and the cartridge builder.

use vstd::prelude::*;

verus! {

/// Low byte of a word.
pub open spec fn lo(w: u16) -> u8 {
    (w % 256) as u8
}

/// High byte of a word.
pub open spec fn hi(w: u16) -> u8 {
    (w / 256) as u8
}

/// A word, high byte first.
pub open spec fn be16(w: u16) -> Seq<u8> {
    seq![hi(w), lo(w)]
}

/// A word, low byte first.
pub open spec fn le16(w: u16) -> Seq<u8> {
    seq![lo(w), hi(w)]
}

/// `base` with `bytes` written over it from `at` on.
pub open spec fn overlay(base: Seq<u8>, at: int, bytes: Seq<u8>) -> Seq<u8> {
    Seq::new(
        base.len(),
        |i: int|
            if at <= i < at + bytes.len() {
                bytes[i - at]
            } else {
                base[i]
            },
    )
}

/// `count` bytes that all hold `value`.
pub open spec fn repeat(value: u8, count: nat) -> Seq<u8> {
    Seq::new(count, |i: int| value)
}

/// Writes `data` into `target` from `at` on.
pub fn write_bytes<const N: usize>(target: &mut [u8; N], at: usize, data: &[u8])
    requires
        at + data@.len() <= N,
    ensures
        final(target)@ == overlay(old(target)@, at as int, data@),
{
    let mut i: usize = 0;
    while i < data.len()
        invariant
            0 <= i <= data@.len(),
            at + data@.len() <= N,
            target@.len() == N,
            forall|j: int|
                0 <= j < N ==> #[trigger] target@[j] == if at <= j < at + i {
                    data@[j - at]
                } else {
                    old(target)@[j]
                },
        decreases data@.len() - i,
    {
        target[at + i] = data[i];
        i += 1;
    }
    assert(target@ =~= overlay(old(target)@, at as int, data@));
}

/// Appends `data[from..to]` to `out`.
pub fn append_range(out: &mut Vec<u8>, data: &[u8], from: usize, to: usize)
    requires
        from <= to <= data@.len(),
    ensures
        final(out)@ == old(out)@ + data@.subrange(from as int, to as int),
{
    let mut i: usize = from;
    while i < to
        invariant
            from <= i <= to <= data@.len(),
            out@ == old(out)@ + data@.subrange(from as int, i as int),
        decreases to - i,
    {
        out.push(data[i]);
        assert(out@ =~= old(out)@ + data@.subrange(from as int, i + 1));
        i += 1;
    }
}

/// Appends all of `data` to `out`.
pub fn append_all(out: &mut Vec<u8>, data: &[u8])
    ensures
        final(out)@ == old(out)@ + data@,
{
    append_range(out, data, 0, data.len());
    assert(data@.subrange(0, data@.len() as int) =~= data@);
}

/// A copy of `data[from..to]`.
pub fn copy_range(data: &[u8], from: usize, to: usize) -> (r: Vec<u8>)
    requires
        from <= to <= data@.len(),
    ensures
        r@ == data@.subrange(from as int, to as int),
{
    let mut out: Vec<u8> = Vec::new();
    append_range(&mut out, data, from, to);
    assert(out@ =~= data@.subrange(from as int, to as int));
    out
}

} // verus!
