//! Unsigned integers as big-endian bytes.

use vstd::arithmetic::div_mod::lemma_div_denominator;
use vstd::arithmetic::power::{lemma_pow0, lemma_pow_positive, pow};
use vstd::prelude::*;

verus! {

/// The number that `bytes` spells in base 256, the most significant byte first.
pub open spec fn be_value(bytes: Seq<u8>) -> nat
    decreases bytes.len(),
{
    if bytes.len() == 0 {
        0
    } else {
        be_value(bytes.drop_last()) * 256 + bytes.last() as nat
    }
}

/// The last `width` base-256 digits of `value`, the most significant byte first.
pub open spec fn be_bytes(value: nat, width: nat) -> Seq<u8>
    decreases width,
{
    if width == 0 {
        Seq::empty()
    } else {
        be_bytes(value / 256, (width - 1) as nat).push((value % 256) as u8)
    }
}

/// A number is written in exactly as many bytes as asked for.
pub broadcast proof fn lemma_be_bytes_len(value: nat, width: nat)
    ensures
        #[trigger] be_bytes(value, width).len() == width,
    decreases width,
{
    if width > 0 {
        lemma_be_bytes_len(value / 256, (width - 1) as nat);
    }
}

/// A number below `256^width` is read back from the `width` bytes that it is written in.
pub proof fn law_value_of_bytes(value: nat, width: nat)
    requires
        value < pow(256, width),
    ensures
        be_value(be_bytes(value, width)) == value,
    decreases width,
{
    if width == 0 {
        lemma_pow0(256);
    } else {
        let shorter = (width - 1) as nat;
        reveal(pow);
        assert(pow(256, width) == 256 * pow(256, shorter));
        law_value_of_bytes(value / 256, shorter);
        let written = be_bytes(value, width);
        assert(written.drop_last() =~= be_bytes(value / 256, shorter));
    }
}

/// Bytes are written again from the number that is read from them, and that number is below
/// `256^n`, for `n` bytes.
pub proof fn law_bytes_of_value(bytes: Seq<u8>)
    ensures
        be_bytes(be_value(bytes), bytes.len()) == bytes,
        be_value(bytes) < pow(256, bytes.len()),
    decreases bytes.len(),
{
    if bytes.len() == 0 {
        lemma_pow0(256);
    } else {
        let init = bytes.drop_last();
        law_bytes_of_value(init);
        reveal(pow);
        assert(pow(256, bytes.len()) == 256 * pow(256, init.len()));
        let value = be_value(bytes);
        assert(value / 256 == be_value(init));
        assert(value % 256 == bytes.last());
        assert(bytes =~= init.push(bytes.last()));
    }
}

/// The bounds of the three widths in use.
pub proof fn lemma_widths()
    ensures
        pow(256, 2) == 0x1_0000,
        pow(256, 4) == 0x1_0000_0000,
        pow(256, 8) == 0x1_0000_0000_0000_0000,
{
    reveal_with_fuel(pow, 9);
}

/// The two bytes of `value`.
pub fn u16_bytes(value: u16) -> (bytes: [u8; 2])
    ensures
        bytes@ == be_bytes(value as nat, 2),
        value == bytes[0] * 256 + bytes[1],
{
    reveal_with_fuel(be_bytes, 3);
    let bytes = [(value / 256) as u8, (value % 256) as u8];
    assert(bytes@ =~= be_bytes(value as nat, 2));
    bytes
}

/// The four bytes of `value`.
pub fn u32_bytes(value: u32) -> (bytes: [u8; 4])
    ensures
        bytes@ == be_bytes(value as nat, 4),
        value == ((bytes[0] * 256 + bytes[1]) * 256 + bytes[2]) * 256 + bytes[3],
{
    reveal_with_fuel(be_bytes, 5);
    let v2: u32 = value / 256;
    let v1: u32 = v2 / 256;
    let v0: u32 = v1 / 256;
    let bytes = [v0 as u8, (v1 % 256) as u8, (v2 % 256) as u8, (value % 256) as u8];
    assert(bytes@ =~= be_bytes(value as nat, 4));
    bytes
}

/// The eight bytes of `value`.
pub fn u64_bytes(value: u64) -> (bytes: [u8; 8])
    ensures
        bytes@ == be_bytes(value as nat, 8),
        value == ((((((bytes[0] * 256 + bytes[1]) * 256 + bytes[2]) * 256 + bytes[3]) * 256
            + bytes[4]) * 256 + bytes[5]) * 256 + bytes[6]) * 256 + bytes[7],
{
    reveal_with_fuel(be_bytes, 9);
    let v6: u64 = value / 256;
    let v5: u64 = v6 / 256;
    let v4: u64 = v5 / 256;
    let v3: u64 = v4 / 256;
    let v2: u64 = v3 / 256;
    let v1: u64 = v2 / 256;
    let v0: u64 = v1 / 256;
    let bytes = [
        v0 as u8,
        (v1 % 256) as u8,
        (v2 % 256) as u8,
        (v3 % 256) as u8,
        (v4 % 256) as u8,
        (v5 % 256) as u8,
        (v6 % 256) as u8,
        (value % 256) as u8,
    ];
    assert(bytes@ =~= be_bytes(value as nat, 8));
    bytes
}

/// The number in the `width` bytes of `data` that start at `start`.
pub fn read_be(data: &[u8], start: usize, width: usize) -> (value: u64)
    requires
        start + width <= data.len(),
        width <= 8,
    ensures
        value == be_value(data@.subrange(start as int, start + width)),
{
    let mut value: u64 = 0;
    let mut i: usize = 0;
    while i < width
        invariant
            i <= width <= 8,
            start + width <= data.len(),
            value == be_value(data@.subrange(start as int, start + i)),
        decreases width - i,
    {
        let ghost before = data@.subrange(start as int, start + i);
        let ghost after = data@.subrange(start as int, start + i + 1);
        proof {
            assert(after.drop_last() =~= before);
            law_bytes_of_value(after);
            lemma_be_width(after.len(), 8);
            lemma_widths();
        }
        value = value * 256 + data[start + i] as u64;
        i = i + 1;
    }
    value
}

/// More bytes hold larger numbers.
proof fn lemma_be_width(short: nat, long: nat)
    requires
        short <= long,
    ensures
        pow(256, short) <= pow(256, long),
    decreases long - short,
{
    if short < long {
        lemma_be_width(short, (long - 1) as nat);
        reveal(pow);
        lemma_pow_positive(256, (long - 1) as nat);
    }
}

/// Byte `i` of a number written in `width` bytes is its base-256 digit of weight
/// `256^(width - 1 - i)`: the first byte is the most significant.
pub proof fn law_byte_is_digit(value: nat, width: nat, i: int)
    requires
        0 <= i < width,
    ensures
        be_bytes(value, width).len() == width,
        be_bytes(value, width)[i] as int == (value as int / pow(256, (width - 1 - i) as nat)) % 256,
    decreases width,
{
    lemma_be_bytes_len(value, width);
    let shorter = (width - 1) as nat;
    lemma_be_bytes_len(value / 256, shorter);
    if i == width - 1 {
        lemma_pow0(256);
    } else {
        law_byte_is_digit(value / 256, shorter, i);
        let weight = pow(256, (shorter - 1 - i) as nat);
        reveal(pow);
        lemma_pow_positive(256, (shorter - 1 - i) as nat);
        assert(pow(256, (width - 1 - i) as nat) == 256 * weight);
        lemma_div_denominator(value as int, 256, weight);
    }
}

/// The number that bytes spell has each of them as the base-256 digit of its place, the first the
/// most significant.
pub proof fn law_digit_is_byte(bytes: Seq<u8>, i: int)
    requires
        0 <= i < bytes.len(),
    ensures
        (be_value(bytes) as int / pow(256, (bytes.len() - 1 - i) as nat)) % 256 == bytes[i],
{
    law_bytes_of_value(bytes);
    law_byte_is_digit(be_value(bytes), bytes.len(), i);
}

/// Bytes put behind others move those up by their own number of places: no bytes spell 0, one byte
/// spells itself, and the rest follows.
pub proof fn law_value_is_positional(high: Seq<u8>, low: Seq<u8>, byte: u8)
    ensures
        be_value(Seq::empty()) == 0,
        be_value(seq![byte]) == byte,
        be_value(high + low) == be_value(high) * pow(256, low.len()) + be_value(low),
    decreases low.len(),
{
    assert(seq![byte].drop_last() =~= Seq::empty());
    reveal_with_fuel(be_value, 2);
    if low.len() == 0 {
        assert(high + low =~= high);
        lemma_pow0(256);
    } else {
        let init = low.drop_last();
        law_value_is_positional(high, init, byte);
        assert((high + low).drop_last() =~= high + init);
        reveal(pow);
        let (h, p) = (be_value(high) as int, pow(256, init.len()));
        assert(pow(256, low.len()) == 256 * p);
        assert(h * (256 * p) == (h * p) * 256) by (nonlinear_arith);
    }
}

} // verus!
