//! Pieces of assembly source that several generators share.

use vstd::prelude::*;
use vstd::string::*;
use crate::text::{hex2, hex2_chars};

verus! {

/// What stands in front of byte `i` of a data listing: the directive at the
/// start of a line of 16 bytes, a comma elsewhere.
pub open spec fn byte_separator(i: int) -> Seq<char> {
    if i == 0 {
        "    .byte "@
    } else if i % 16 == 0 {
        "\n    .byte "@
    } else {
        ","@
    }
}

/// The listing of the first `k` bytes of `data`: lines of up to 16 bytes, each
/// byte as `$` and two hexadecimal digits.
pub open spec fn byte_lines(data: Seq<u8>, k: int) -> Seq<char>
    decreases k,
{
    if k <= 0 {
        Seq::empty()
    } else {
        byte_lines(data, k - 1) + byte_separator(k - 1) + "$"@ + hex2_chars(data[k - 1])
    }
}

/// The listing of `data`; a single zero byte where `data` is empty.
pub open spec fn format_bytes_text(data: Seq<u8>) -> Seq<char> {
    if data.len() == 0 {
        "    .byte $00"@
    } else {
        byte_lines(data, data.len() as int)
    }
}

/// Lists `data` as assembly source.
pub fn format_bytes(data: &[u8]) -> (r: String)
    ensures
        r@ == format_bytes_text(data@),
{
    if data.len() == 0 {
        return String::from_str("    .byte $00");
    }
    let mut s = String::new();
    let mut k: usize = 0;
    while k < data.len()
        invariant
            0 <= k <= data@.len(),
            s@ == byte_lines(data@, k as int),
        decreases data@.len() - k,
    {
        if k == 0 {
            s.append("    .byte ");
        } else if k % 16 == 0 {
            s.append("\n    .byte ");
        } else {
            s.append(",");
        }
        s.append("$");
        s.append(hex2(data[k]).as_str());
        k += 1;
    }
    s
}

} // verus!
