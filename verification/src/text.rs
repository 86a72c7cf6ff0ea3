//! Numbers as text: decimal and upper-case hexadecimal digits, as they appear
//! in generated assembly source and in messages.

use vstd::prelude::*;
use vstd::string::*;

verus! {

/// The character for one digit in base 16, upper case.
pub open spec fn hex_digit_char(d: int) -> char {
    if d == 0 {
        '0'
    } else if d == 1 {
        '1'
    } else if d == 2 {
        '2'
    } else if d == 3 {
        '3'
    } else if d == 4 {
        '4'
    } else if d == 5 {
        '5'
    } else if d == 6 {
        '6'
    } else if d == 7 {
        '7'
    } else if d == 8 {
        '8'
    } else if d == 9 {
        '9'
    } else if d == 10 {
        'A'
    } else if d == 11 {
        'B'
    } else if d == 12 {
        'C'
    } else if d == 13 {
        'D'
    } else if d == 14 {
        'E'
    } else {
        'F'
    }
}

/// The decimal digits of `n`, most significant first, without leading zeros.
pub open spec fn decimal_chars(n: nat) -> Seq<char>
    decreases n,
{
    if n < 10 {
        seq![hex_digit_char(n as int)]
    } else {
        decimal_chars(n / 10).push(hex_digit_char((n % 10) as int))
    }
}

/// The hexadecimal digits of `n`, most significant first, without leading
/// zeros.
pub open spec fn hex_chars(n: nat) -> Seq<char>
    decreases n,
{
    if n < 16 {
        seq![hex_digit_char(n as int)]
    } else {
        hex_chars(n / 16).push(hex_digit_char((n % 16) as int))
    }
}

/// `count` zeros.
pub open spec fn zeros(count: nat) -> Seq<char> {
    Seq::new(count, |i: int| '0')
}

/// The hexadecimal digits of `n`, padded with zeros on the left to at least
/// `width` digits.
pub open spec fn hex_padded(n: nat, width: nat) -> Seq<char> {
    if hex_chars(n).len() >= width {
        hex_chars(n)
    } else {
        zeros((width - hex_chars(n).len()) as nat) + hex_chars(n)
    }
}

/// Two hexadecimal digits for a byte.
pub open spec fn hex2_chars(b: u8) -> Seq<char> {
    seq![hex_digit_char(b as int / 16), hex_digit_char(b as int % 16)]
}

/// Four hexadecimal digits for a 16-bit word.
pub open spec fn hex4_chars(w: u16) -> Seq<char> {
    hex2_chars((w / 256) as u8) + hex2_chars((w % 256) as u8)
}

/// One digit as a string of one character.
pub fn hex_digit(d: u8) -> (r: &'static str)
    requires
        d < 16,
    ensures
        r@ == seq![hex_digit_char(d as int)],
{
    proof {
        reveal_strlit("0");
        reveal_strlit("1");
        reveal_strlit("2");
        reveal_strlit("3");
        reveal_strlit("4");
        reveal_strlit("5");
        reveal_strlit("6");
        reveal_strlit("7");
        reveal_strlit("8");
        reveal_strlit("9");
        reveal_strlit("A");
        reveal_strlit("B");
        reveal_strlit("C");
        reveal_strlit("D");
        reveal_strlit("E");
        reveal_strlit("F");
    }
    let r = if d == 0 {
        "0"
    } else if d == 1 {
        "1"
    } else if d == 2 {
        "2"
    } else if d == 3 {
        "3"
    } else if d == 4 {
        "4"
    } else if d == 5 {
        "5"
    } else if d == 6 {
        "6"
    } else if d == 7 {
        "7"
    } else if d == 8 {
        "8"
    } else if d == 9 {
        "9"
    } else if d == 10 {
        "A"
    } else if d == 11 {
        "B"
    } else if d == 12 {
        "C"
    } else if d == 13 {
        "D"
    } else if d == 14 {
        "E"
    } else {
        "F"
    };
    assert(r@ =~= seq![hex_digit_char(d as int)]);
    r
}

/// `n` in decimal.
pub fn decimal64(n: u64) -> (r: String)
    ensures
        r@ == decimal_chars(n as nat),
    decreases n,
{
    if n < 10 {
        String::from_str(hex_digit(n as u8))
    } else {
        let mut s = decimal64(n / 10);
        s.append(hex_digit((n % 10) as u8));
        assert(s@ =~= decimal_chars(n as nat));
        s
    }
}

/// `n` in decimal.
pub fn decimal(n: usize) -> (r: String)
    ensures
        r@ == decimal_chars(n as nat),
{
    decimal64(n as u64)
}

/// `n` in hexadecimal, without padding.
pub fn hex(n: usize) -> (r: String)
    ensures
        r@ == hex_chars(n as nat),
    decreases n,
{
    if n < 16 {
        String::from_str(hex_digit(n as u8))
    } else {
        let mut s = hex(n / 16);
        s.append(hex_digit((n % 16) as u8));
        assert(s@ =~= hex_chars(n as nat));
        s
    }
}

/// The number of hexadecimal digits of `n`.
pub fn hex_len(n: usize) -> (r: usize)
    ensures
        r == hex_chars(n as nat).len(),
        1 <= r <= 16,
    decreases n,
{
    if n < 16 {
        1
    } else {
        assert(n / 16 < 0x1000_0000_0000_0000) by {
            assert(n <= usize::MAX);
        }
        let r = hex_len(n / 16);
        proof {
            lemma_hex_len_bound(n as nat);
        }
        r + 1
    }
}

/// A number below `16^k` has at most `k` digits; the cases that a machine
/// word needs.
proof fn lemma_hex_len_bound(n: nat)
    requires
        n <= u64::MAX,
    ensures
        hex_chars(n).len() <= 16,
{
    reveal_with_fuel(hex_chars, 17);
    assert(n / 16 / 16 / 16 / 16 / 16 / 16 / 16 / 16 / 16 / 16 / 16 / 16 / 16 / 16 / 16 < 16);
}

/// `n` in hexadecimal, padded with zeros to at least `width` digits.
pub fn hex_width(n: usize, width: usize) -> (r: String)
    ensures
        r@ == hex_padded(n as nat, width as nat),
{
    let digits = hex_len(n);
    let mut s = String::new();
    let mut i: usize = digits;
    while i < width
        invariant
            digits <= i,
            digits < width ==> i <= width,
            digits >= width ==> i == digits,
            s@ == zeros((i - digits) as nat),
        decreases width - i,
    {
        s.append("0");
        proof {
            reveal_strlit("0");
            assert(s@ =~= zeros((i + 1 - digits) as nat));
        }
        i += 1;
    }
    let body = hex(n);
    s.append(body.as_str());
    assert(s@ =~= hex_padded(n as nat, width as nat));
    s
}

/// A byte as two hexadecimal digits.
pub fn hex2(b: u8) -> (r: String)
    ensures
        r@ == hex2_chars(b),
{
    let mut s = String::from_str(hex_digit(b / 16));
    s.append(hex_digit(b % 16));
    assert(s@ =~= hex2_chars(b));
    s
}

/// A word as four hexadecimal digits.
pub fn hex4(w: u16) -> (r: String)
    ensures
        r@ == hex4_chars(w),
{
    let mut s = hex2((w / 256) as u8);
    let low = hex2((w % 256) as u8);
    s.append(low.as_str());
    s
}

} // verus!
