//! Little-endian integer readers, ceiling division and decimal formatting:
//! the arithmetic leaves the rest of the crate builds on.

use vstd::prelude::*;

verus! {

/// The value of the two bytes starting at `i` in `s`, read little-endian.
pub open spec fn le16(s: Seq<u8>, i: int) -> int {
    s[i] + 0x100 * s[i + 1]
}

/// The value of the four bytes starting at `i` in `s`, read little-endian.
pub open spec fn le32(s: Seq<u8>, i: int) -> int {
    s[i] + 0x100 * s[i + 1] + 0x1_0000 * s[i + 2] + 0x100_0000 * s[i + 3]
}

/// The value of the eight bytes starting at `i` in `s`, read little-endian.
pub open spec fn le64(s: Seq<u8>, i: int) -> int {
    s[i] + 0x100 * s[i + 1] + 0x1_0000 * s[i + 2] + 0x100_0000 * s[i + 3]
        + 0x1_0000_0000 * s[i + 4] + 0x100_0000_0000 * s[i + 5]
        + 0x1_0000_0000_0000 * s[i + 6] + 0x100_0000_0000_0000 * s[i + 7]
}

/// Reads a little-endian `u16` at `pos`.
pub fn read_le_u16(data: &[u8], pos: usize) -> (r: u16)
    requires
        pos + 2 <= data@.len(),
    ensures
        r as int == le16(data@, pos as int),
{
    (data[pos] as u16) + 0x100 * (data[pos + 1] as u16)
}

/// Reads a little-endian `u32` at `pos`.
pub fn read_le_u32(data: &[u8], pos: usize) -> (r: u32)
    requires
        pos + 4 <= data@.len(),
    ensures
        r as int == le32(data@, pos as int),
{
    (data[pos] as u32) + 0x100 * (data[pos + 1] as u32) + 0x1_0000 * (data[pos + 2] as u32)
        + 0x100_0000 * (data[pos + 3] as u32)
}

/// Reads a little-endian `u64` at `pos`.
pub fn read_le_u64(data: &[u8], pos: usize) -> (r: u64)
    requires
        pos + 8 <= data@.len(),
    ensures
        r as int == le64(data@, pos as int),
{
    (data[pos] as u64) + 0x100 * (data[pos + 1] as u64) + 0x1_0000 * (data[pos + 2] as u64)
        + 0x100_0000 * (data[pos + 3] as u64) + 0x1_0000_0000 * (data[pos + 4] as u64)
        + 0x100_0000_0000 * (data[pos + 5] as u64)
        + 0x1_0000_0000_0000 * (data[pos + 6] as u64)
        + 0x100_0000_0000_0000 * (data[pos + 7] as u64)
}

/// The value of the `k` bytes starting at `i` in `s` (`k <= 8`), read
/// little-endian: a short field zero-extended to a 64-bit value.
pub open spec fn le_partial(s: Seq<u8>, i: int, k: int) -> int {
    (if k > 0 { s[i] as int } else { 0 }) + 0x100 * (if k > 1 { s[i + 1] as int } else { 0 })
        + 0x1_0000 * (if k > 2 { s[i + 2] as int } else { 0 })
        + 0x100_0000 * (if k > 3 { s[i + 3] as int } else { 0 })
        + 0x1_0000_0000 * (if k > 4 { s[i + 4] as int } else { 0 })
        + 0x100_0000_0000 * (if k > 5 { s[i + 5] as int } else { 0 })
        + 0x1_0000_0000_0000 * (if k > 6 { s[i + 6] as int } else { 0 })
        + 0x100_0000_0000_0000 * (if k > 7 { s[i + 7] as int } else { 0 })
}

/// Reads the `k` bytes at `pos` (`k <= 8`) as a zero-extended little-endian
/// value.
pub fn read_le_partial(data: &[u8], pos: usize, k: usize) -> (r: u64)
    requires
        k <= 8,
        pos + k <= data@.len(),
    ensures
        r as int == le_partial(data@, pos as int, k as int),
{
    let mut r: u64 = 0;
    if k > 0 {
        r = r + (data[pos] as u64);
    }
    if k > 1 {
        r = r + 0x100 * (data[pos + 1] as u64);
    }
    if k > 2 {
        r = r + 0x1_0000 * (data[pos + 2] as u64);
    }
    if k > 3 {
        r = r + 0x100_0000 * (data[pos + 3] as u64);
    }
    if k > 4 {
        r = r + 0x1_0000_0000 * (data[pos + 4] as u64);
    }
    if k > 5 {
        r = r + 0x100_0000_0000 * (data[pos + 5] as u64);
    }
    if k > 6 {
        r = r + 0x1_0000_0000_0000 * (data[pos + 6] as u64);
    }
    if k > 7 {
        r = r + 0x100_0000_0000_0000 * (data[pos + 7] as u64);
    }
    r
}

/// `a / b`, rounded towards positive infinity.
pub open spec fn spec_div_ceil(a: int, b: int) -> int {
    if a % b == 0 {
        a / b
    } else {
        a / b + 1
    }
}

/// Ceiling division on `u64`, without intermediate overflow.
pub fn div_ceil(a: u64, b: u64) -> (r: u64)
    requires
        b > 0,
    ensures
        r as int == spec_div_ceil(a as int, b as int),
{
    if a % b == 0 {
        a / b
    } else {
        assert(b >= 2);
        assert(a / b < u64::MAX) by (nonlinear_arith)
            requires
                b >= 2,
                a <= u64::MAX,
        ;
        a / b + 1
    }
}

/// The decimal digit `d` as a character.
pub open spec fn spec_dec_digit(d: int) -> char {
    if d == 0 {
        '0'
    } else if d == 1 {
        '1'
    } else if d == 2 {
        '2'
    } else if d == 3 {
        '3'
    } else if d == 4 {
        '4'
    } else if d == 5 {
        '5'
    } else if d == 6 {
        '6'
    } else if d == 7 {
        '7'
    } else if d == 8 {
        '8'
    } else {
        '9'
    }
}

/// The decimal numeral of `n`, most significant digit first.
pub open spec fn spec_dec(n: int) -> Seq<char>
    decreases n,
{
    if n < 10 {
        seq![spec_dec_digit(n)]
    } else {
        spec_dec(n / 10).push(spec_dec_digit(n % 10))
    }
}

fn dec_digit_str(d: u64) -> (r: &'static str)
    requires
        d < 10,
    ensures
        r@ == seq![spec_dec_digit(d as int)],
{
    if d == 0 {
        proof {
            reveal_strlit("0");
            assert("0"@ =~= seq![spec_dec_digit(0)]);
        }
        "0"
    } else if d == 1 {
        proof {
            reveal_strlit("1");
            assert("1"@ =~= seq![spec_dec_digit(1)]);
        }
        "1"
    } else if d == 2 {
        proof {
            reveal_strlit("2");
            assert("2"@ =~= seq![spec_dec_digit(2)]);
        }
        "2"
    } else if d == 3 {
        proof {
            reveal_strlit("3");
            assert("3"@ =~= seq![spec_dec_digit(3)]);
        }
        "3"
    } else if d == 4 {
        proof {
            reveal_strlit("4");
            assert("4"@ =~= seq![spec_dec_digit(4)]);
        }
        "4"
    } else if d == 5 {
        proof {
            reveal_strlit("5");
            assert("5"@ =~= seq![spec_dec_digit(5)]);
        }
        "5"
    } else if d == 6 {
        proof {
            reveal_strlit("6");
            assert("6"@ =~= seq![spec_dec_digit(6)]);
        }
        "6"
    } else if d == 7 {
        proof {
            reveal_strlit("7");
            assert("7"@ =~= seq![spec_dec_digit(7)]);
        }
        "7"
    } else if d == 8 {
        proof {
            reveal_strlit("8");
            assert("8"@ =~= seq![spec_dec_digit(8)]);
        }
        "8"
    } else {
        proof {
            reveal_strlit("9");
            assert("9"@ =~= seq![spec_dec_digit(9)]);
        }
        "9"
    }
}

/// Relies on String::push: appends exactly the one character.
#[verifier::external_body]
pub fn push_char(s: &mut String, c: char)
    ensures
        final(s)@ == old(s)@.push(c),
{
    s.push(c);
}

/// Formats `n` in decimal.
pub fn u64_to_dec(n: u64) -> (r: String)
    ensures
        r@ == spec_dec(n as int),
    decreases n,
{
    if n < 10 {
        let s = String::from_str(dec_digit_str(n));
        s
    } else {
        let mut s = u64_to_dec(n / 10);
        s.append(dec_digit_str(n % 10));
        proof {
            assert(s@ =~= spec_dec(n as int));
        }
        s
    }
}

/// Formats `n` in decimal.
pub fn u32_to_dec(n: u32) -> (r: String)
    ensures
        r@ == spec_dec(n as int),
{
    u64_to_dec(n as u64)
}

} // verus!
