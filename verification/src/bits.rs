//! Reading of bit fields out of a report, and the bit depth that a logical
//! range stands for.
//!
//! A report is a string of bits: bit `i` is bit `i % 8` of byte `i / 8`,
//! counted from the least significant bit. A field is a run of these bits,
//! least significant first.

use vstd::prelude::*;

verus! {

/// The widest field that is read.
pub const MAX_FIELD_WIDTH: usize = 32;

/// Two to the power `n`.
pub open spec fn two_to(n: nat) -> int
    decreases n,
{
    if n == 0 {
        1
    } else {
        2 * two_to((n - 1) as nat)
    }
}

/// The value of bit `k` of a byte, for `k` from 0 to 7.
pub open spec fn bit_weight(k: int) -> int {
    if k == 0 {
        1
    } else if k == 1 {
        2
    } else if k == 2 {
        4
    } else if k == 3 {
        8
    } else if k == 4 {
        16
    } else if k == 5 {
        32
    } else if k == 6 {
        64
    } else {
        128
    }
}

/// Bit `i` of a report: 0 or 1.
pub open spec fn bit_at(bytes: Seq<u8>, i: int) -> int {
    bytes[i / 8] as int / bit_weight(i % 8) % 2
}

/// The number that the `width` bits from `start` on spell, least
/// significant bit first.
pub open spec fn unsigned_bits(bytes: Seq<u8>, start: int, width: nat) -> int
    decreases width,
{
    if width == 0 {
        0
    } else {
        bit_at(bytes, start) + 2 * unsigned_bits(bytes, start + 1, (width - 1) as nat)
    }
}

/// The number that the `width` bits from `start` on spell in two's
/// complement: the last bit counts negative.
pub open spec fn signed_bits(bytes: Seq<u8>, start: int, width: nat) -> int
    decreases width,
{
    if width == 0 {
        0
    } else if width == 1 {
        -bit_at(bytes, start)
    } else {
        bit_at(bytes, start) + 2 * signed_bits(bytes, start + 1, (width - 1) as nat)
    }
}

/// The value of a field as a 32-bit signed number: in two's complement
/// where the field is signed, and where it fills all 32 bits.
pub open spec fn field_value(bytes: Seq<u8>, start: int, width: nat, signed: bool) -> int {
    if signed || width == 32 {
        signed_bits(bytes, start, width)
    } else {
        unsigned_bits(bytes, start, width)
    }
}

/// The powers of two grow with the exponent.
pub proof fn lemma_two_to_monotonic(a: nat, b: nat)
    requires
        a <= b,
    ensures
        0 < two_to(a) <= two_to(b),
    decreases b,
{
    if a < b {
        lemma_two_to_monotonic(a, (b - 1) as nat);
    } else if a > 0 {
        lemma_two_to_monotonic((a - 1) as nat, (a - 1) as nat);
    }
}

proof fn lemma_two_to_32()
    ensures
        two_to(31) == 0x8000_0000,
        two_to(32) == 0x1_0000_0000,
{
    assert(two_to(8) == 256) by {
        reveal_with_fuel(two_to, 9);
    }
    assert(two_to(16) == 65536) by {
        reveal_with_fuel(two_to, 9);
    }
    assert(two_to(24) == 16777216) by {
        reveal_with_fuel(two_to, 9);
    }
    assert(two_to(31) == 0x8000_0000) by {
        reveal_with_fuel(two_to, 8);
    }
}

/// An unsigned field of `width` bits is less than two to the `width`.
pub proof fn lemma_unsigned_bits_bounds(bytes: Seq<u8>, start: int, width: nat)
    requires
        0 <= start,
        start + width <= 8 * bytes.len(),
    ensures
        0 <= unsigned_bits(bytes, start, width) < two_to(width),
    decreases width,
{
    if width > 0 {
        lemma_unsigned_bits_bounds(bytes, start + 1, (width - 1) as nat);
    }
}

/// A signed field of `width` bits lies between minus two to the
/// `width - 1` and that power itself.
pub proof fn lemma_signed_bits_bounds(bytes: Seq<u8>, start: int, width: nat)
    requires
        0 <= start,
        width >= 1,
        start + width <= 8 * bytes.len(),
    ensures
        -two_to((width - 1) as nat) <= signed_bits(bytes, start, width) < two_to(
            (width - 1) as nat,
        ),
    decreases width,
{
    if width > 1 {
        lemma_signed_bits_bounds(bytes, start + 1, (width - 1) as nat);
    }
}

fn read_bit(bytes: &[u8], i: usize) -> (bit: u8)
    requires
        i < 8 * bytes.len(),
    ensures
        bit == bit_at(bytes@, i as int),
        bit <= 1,
{
    let byte = bytes[i / 8];
    let k = i % 8;
    let weight: u8 = if k == 0 {
        1
    } else if k == 1 {
        2
    } else if k == 2 {
        4
    } else if k == 3 {
        8
    } else if k == 4 {
        16
    } else if k == 5 {
        32
    } else if k == 6 {
        64
    } else {
        128
    };
    byte / weight % 2
}

/// Reads an unsigned field of 1 to 32 bits.
pub fn read_unsigned(bytes: &[u8], start: usize, width: usize) -> (value: u32)
    requires
        1 <= width <= MAX_FIELD_WIDTH,
        start + width <= 8 * bytes.len(),
        start + width <= usize::MAX,
    ensures
        value == unsigned_bits(bytes@, start as int, width as nat),
{
    let mut acc: u64 = 0;
    let mut i: usize = width;
    while i > 0
        invariant
            i <= width <= MAX_FIELD_WIDTH,
            start + width <= 8 * bytes.len(),
            start + width <= usize::MAX,
            acc == unsigned_bits(bytes@, start + i, (width - i) as nat),
        decreases i,
    {
        proof {
            lemma_unsigned_bits_bounds(bytes@, start + i, (width - i) as nat);
            lemma_two_to_monotonic((width - i) as nat, 32);
            lemma_two_to_32();
        }
        i -= 1;
        let bit = read_bit(bytes, start + i);
        acc = 2 * acc + bit as u64;
    }
    proof {
        lemma_unsigned_bits_bounds(bytes@, start as int, width as nat);
        lemma_two_to_monotonic(width as nat, 32);
        lemma_two_to_32();
    }
    acc as u32
}

/// Reads a field of 1 to 32 bits in two's complement.
pub fn read_signed(bytes: &[u8], start: usize, width: usize) -> (value: i32)
    requires
        1 <= width <= MAX_FIELD_WIDTH,
        start + width <= 8 * bytes.len(),
        start + width <= usize::MAX,
    ensures
        value == signed_bits(bytes@, start as int, width as nat),
{
    let mut i: usize = width - 1;
    let top = read_bit(bytes, start + i);
    let mut acc: i64 = -(top as i64);
    while i > 0
        invariant
            i < width <= MAX_FIELD_WIDTH,
            start + width <= 8 * bytes.len(),
            start + width <= usize::MAX,
            acc == signed_bits(bytes@, start + i, (width - i) as nat),
        decreases i,
    {
        proof {
            lemma_signed_bits_bounds(bytes@, start + i, (width - i) as nat);
            lemma_two_to_monotonic((width - i - 1) as nat, 31);
            lemma_two_to_32();
        }
        i -= 1;
        let bit = read_bit(bytes, start + i);
        acc = 2 * acc + bit as i64;
    }
    proof {
        lemma_signed_bits_bounds(bytes@, start as int, width as nat);
        lemma_two_to_monotonic((width - 1) as nat, 31);
        lemma_two_to_32();
    }
    acc as i32
}

/// Reads a field of 1 to 32 bits as a 32-bit signed number.
pub fn read_field(bytes: &[u8], start: usize, width: usize, signed: bool) -> (value: i32)
    requires
        1 <= width <= MAX_FIELD_WIDTH,
        start + width <= 8 * bytes.len(),
        start + width <= usize::MAX,
    ensures
        value == field_value(bytes@, start as int, width as nat, signed),
{
    if signed || width == 32 {
        read_signed(bytes, start, width)
    } else {
        proof {
            lemma_unsigned_bits_bounds(bytes@, start as int, width as nat);
            lemma_two_to_monotonic(width as nat, 31);
            lemma_two_to_32();
        }
        read_unsigned(bytes, start, width) as i32
    }
}

/// The binary logarithm of `r`, rounded up: the least `k` for which two
/// to the `k` reaches `r`.
pub open spec fn ceil_log2(r: int) -> nat
    decreases r,
{
    if r <= 1 {
        0
    } else {
        1 + ceil_log2((r + 1) / 2)
    }
}

/// `ceil_log2(r)` is the least exponent whose power of two reaches `r`.
pub proof fn lemma_ceil_log2_is_least(r: int)
    requires
        r >= 1,
    ensures
        r <= two_to(ceil_log2(r)),
        ceil_log2(r) > 0 ==> two_to((ceil_log2(r) - 1) as nat) < r,
    decreases r,
{
    if r > 1 {
        lemma_ceil_log2_is_least((r + 1) / 2);
    }
}

/// The bit depth of an axis: the binary logarithm of its logical range,
/// rounded up, and the declared width of the field where the range is
/// empty.
pub open spec fn effective_bits(logical_min: i32, logical_max: i32, width: nat) -> nat {
    if logical_max - logical_min > 0 {
        ceil_log2(logical_max - logical_min)
    } else {
        width
    }
}

/// The bit depth of an axis with the given logical range and declared
/// width.
pub fn infer_bit_depth(logical_min: i32, logical_max: i32, width: u8) -> (bits: u8)
    ensures
        bits == effective_bits(logical_min, logical_max, width as nat),
        logical_max - logical_min > 0 ==> bits <= 32,
{
    let range: i64 = logical_max as i64 - logical_min as i64;
    if range > 0 {
        let mut x: i64 = range;
        let mut k: u8 = 0;
        proof {
            lemma_two_to_32();
        }
        while x > 1
            invariant
                1 <= x <= range,
                range <= 0xFFFF_FFFF,
                ceil_log2(range as int) == k + ceil_log2(x as int),
                k <= 32,
                x <= two_to((32 - k) as nat),
            decreases x,
        {
            proof {
                if k == 32 {
                    assert(two_to(0) == 1);
                }
            }
            x = (x + 1) / 2;
            k += 1;
        }
        proof {
            lemma_two_to_32();
        }
        k
    } else {
        width
    }
}

} // verus!
