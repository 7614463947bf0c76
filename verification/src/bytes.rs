//! Fixed-width little-endian integers, as the records and requests hold them.

use vstd::prelude::*;

verus! {

/// The number that four bytes hold, least significant byte first.
#[verifier::opaque]
pub open spec fn u32_from_le(b: Seq<u8>) -> int
    recommends
        b.len() == 4,
{
    b[0] + 256 * (b[1] + 256 * (b[2] + 256 * b[3]))
}

/// The four bytes of `x`, least significant first.
#[verifier::opaque]
pub open spec fn u32_to_le(x: u32) -> Seq<u8> {
    seq![
        (x % 256) as u8,
        (x / 256 % 256) as u8,
        (x / 256 / 256 % 256) as u8,
        (x / 256 / 256 / 256 % 256) as u8,
    ]
}

/// The number that eight bytes hold, least significant byte first.
#[verifier::opaque]
pub open spec fn u64_from_le(b: Seq<u8>) -> int
    recommends
        b.len() == 8,
{
    b[0] + 256 * (b[1] + 256 * (b[2] + 256 * (b[3] + 256 * (b[4] + 256 * (b[5] + 256 * (b[6] + 256
        * b[7]))))))
}

/// The eight bytes of `x`, least significant first.
#[verifier::opaque]
pub open spec fn u64_to_le(x: u64) -> Seq<u8> {
    seq![
        (x % 256) as u8,
        (x / 256 % 256) as u8,
        (x / 256 / 256 % 256) as u8,
        (x / 256 / 256 / 256 % 256) as u8,
        (x / 256 / 256 / 256 / 256 % 256) as u8,
        (x / 256 / 256 / 256 / 256 / 256 % 256) as u8,
        (x / 256 / 256 / 256 / 256 / 256 / 256 % 256) as u8,
        (x / 256 / 256 / 256 / 256 / 256 / 256 / 256 % 256) as u8,
    ]
}

/// The unsigned number with the same sixty-four bits as `x` (two's complement).
pub open spec fn i64_bits(x: i64) -> u64 {
    if x >= 0 {
        x as u64
    } else {
        (x + 0x1_0000_0000_0000_0000) as u64
    }
}

/// The signed number that eight bytes hold in two's complement, least
/// significant byte first.
pub open spec fn i64_from_le(b: Seq<u8>) -> int
    recommends
        b.len() == 8,
{
    if u64_from_le(b) < 0x8000_0000_0000_0000 {
        u64_from_le(b)
    } else {
        u64_from_le(b) - 0x1_0000_0000_0000_0000
    }
}

/// The eight bytes of `x` in two's complement, least significant first.
pub open spec fn i64_to_le(x: i64) -> Seq<u8> {
    u64_to_le(i64_bits(x))
}

/// Splitting off the lowest byte of a number and putting it back.
proof fn lemma_low_byte(low: int, high: int)
    requires
        0 <= low < 256,
    ensures
        (low + 256 * high) % 256 == low,
        (low + 256 * high) / 256 == high,
{
}

/// Four bytes hold a number that fits `u32`; eight, one that fits `u64`.
pub proof fn lemma_le_range(b: Seq<u8>)
    ensures
        0 <= u32_from_le(b) <= u32::MAX,
        0 <= u64_from_le(b) <= u64::MAX,
        i64::MIN <= i64_from_le(b) <= i64::MAX,
{
    reveal(u32_from_le);
    reveal(u64_from_le);
}

/// Reading back the bytes of a `u32` gives the number.
pub proof fn lemma_u32_le_round_trip(x: u32)
    ensures
        u32_to_le(x).len() == 4,
        u32_from_le(u32_to_le(x)) == x,
{
    reveal(u32_from_le);
    reveal(u32_to_le);
    let q1 = x / 256;
    let q2 = q1 / 256;
    let q3 = q2 / 256;
    assert(x == x % 256 + 256 * q1);
    assert(q1 == q1 % 256 + 256 * q2);
    assert(q2 == q2 % 256 + 256 * q3);
    assert(q3 == q3 % 256);
}

/// Reading back the bytes of a `u64` gives the number.
pub proof fn lemma_u64_le_round_trip(x: u64)
    ensures
        u64_to_le(x).len() == 8,
        u64_from_le(u64_to_le(x)) == x,
{
    reveal(u64_from_le);
    reveal(u64_to_le);
    let q1 = x / 256;
    let q2 = q1 / 256;
    let q3 = q2 / 256;
    let q4 = q3 / 256;
    let q5 = q4 / 256;
    let q6 = q5 / 256;
    let q7 = q6 / 256;
    assert(x == x % 256 + 256 * q1);
    assert(q1 == q1 % 256 + 256 * q2);
    assert(q2 == q2 % 256 + 256 * q3);
    assert(q3 == q3 % 256 + 256 * q4);
    assert(q4 == q4 % 256 + 256 * q5);
    assert(q5 == q5 % 256 + 256 * q6);
    assert(q6 == q6 % 256 + 256 * q7);
    assert(q7 == q7 % 256);
}

/// Reading back the bytes of an `i64` gives the number.
pub proof fn lemma_i64_le_round_trip(x: i64)
    ensures
        i64_to_le(x).len() == 8,
        i64_from_le(i64_to_le(x)) == x,
{
    lemma_u64_le_round_trip(i64_bits(x));
}

/// Writing the number that four bytes hold gives those bytes back.
pub proof fn lemma_u32_le_bytes_round_trip(b: Seq<u8>)
    requires
        b.len() == 4,
    ensures
        u32_to_le(u32_from_le(b) as u32) == b,
{
    reveal(u32_from_le);
    reveal(u32_to_le);
    let h3 = b[3] as int;
    let h2 = b[2] + 256 * h3;
    let h1 = b[1] + 256 * h2;
    lemma_low_byte(b[0] as int, h1);
    lemma_low_byte(b[1] as int, h2);
    lemma_low_byte(b[2] as int, h3);
    lemma_low_byte(b[3] as int, 0);
    assert(u32_to_le(u32_from_le(b) as u32) =~= b);
}

/// Writing the number that eight bytes hold gives those bytes back.
pub proof fn lemma_u64_le_bytes_round_trip(b: Seq<u8>)
    requires
        b.len() == 8,
    ensures
        u64_to_le(u64_from_le(b) as u64) == b,
        i64_to_le(i64_from_le(b) as i64) == b,
{
    reveal(u64_from_le);
    reveal(u64_to_le);
    let h7 = b[7] as int;
    let h6 = b[6] + 256 * h7;
    let h5 = b[5] + 256 * h6;
    let h4 = b[4] + 256 * h5;
    let h3 = b[3] + 256 * h4;
    let h2 = b[2] + 256 * h3;
    let h1 = b[1] + 256 * h2;
    lemma_low_byte(b[0] as int, h1);
    lemma_low_byte(b[1] as int, h2);
    lemma_low_byte(b[2] as int, h3);
    lemma_low_byte(b[3] as int, h4);
    lemma_low_byte(b[4] as int, h5);
    lemma_low_byte(b[5] as int, h6);
    lemma_low_byte(b[6] as int, h7);
    lemma_low_byte(b[7] as int, 0);
    assert(u64_to_le(u64_from_le(b) as u64) =~= b);
    assert(i64_bits(i64_from_le(b) as i64) == u64_from_le(b));
}

/// Reads the `u32` that starts at `at`.
pub fn read_u32(data: &[u8], at: usize) -> (r: u32)
    requires
        at + 4 <= data@.len(),
    ensures
        r == u32_from_le(data@.subrange(at as int, at + 4)),
{
    proof {
        reveal(u32_from_le);
    }
    let b0: u32 = data[at] as u32;
    let b1: u32 = data[at + 1] as u32;
    let b2: u32 = data[at + 2] as u32;
    let b3: u32 = data[at + 3] as u32;
    b0 + 256 * (b1 + 256 * (b2 + 256 * b3))
}

/// Reads the `u64` that starts at `at`.
pub fn read_u64(data: &[u8], at: usize) -> (r: u64)
    requires
        at + 8 <= data@.len(),
    ensures
        r == u64_from_le(data@.subrange(at as int, at + 8)),
{
    proof {
        reveal(u64_from_le);
    }
    let b0: u64 = data[at] as u64;
    let b1: u64 = data[at + 1] as u64;
    let b2: u64 = data[at + 2] as u64;
    let b3: u64 = data[at + 3] as u64;
    let b4: u64 = data[at + 4] as u64;
    let b5: u64 = data[at + 5] as u64;
    let b6: u64 = data[at + 6] as u64;
    let b7: u64 = data[at + 7] as u64;
    b0 + 256 * (b1 + 256 * (b2 + 256 * (b3 + 256 * (b4 + 256 * (b5 + 256 * (b6 + 256 * b7))))))
}

/// Reads the `i64` that starts at `at`.
pub fn read_i64(data: &[u8], at: usize) -> (r: i64)
    requires
        at + 8 <= data@.len(),
    ensures
        r == i64_from_le(data@.subrange(at as int, at + 8)),
{
    let bits: u64 = read_u64(data, at);
    if bits < 0x8000_0000_0000_0000 {
        bits as i64
    } else {
        let low: u64 = bits - 0x8000_0000_0000_0000;
        low as i64 + i64::MIN
    }
}

/// Appends the four bytes of `x`.
pub fn push_u32(out: &mut Vec<u8>, x: u32)
    ensures
        final(out)@ == old(out)@ + u32_to_le(x),
        final(out)@.len() == old(out)@.len() + 4,
{
    proof {
        reveal(u32_to_le);
    }
    let q1: u32 = x / 256;
    let q2: u32 = q1 / 256;
    let q3: u32 = q2 / 256;
    out.push((x % 256) as u8);
    out.push((q1 % 256) as u8);
    out.push((q2 % 256) as u8);
    out.push((q3 % 256) as u8);
    assert(out@ =~= old(out)@ + u32_to_le(x));
}

/// Appends the eight bytes of `x`.
pub fn push_u64(out: &mut Vec<u8>, x: u64)
    ensures
        final(out)@ == old(out)@ + u64_to_le(x),
        final(out)@.len() == old(out)@.len() + 8,
{
    proof {
        reveal(u64_to_le);
    }
    let q1: u64 = x / 256;
    let q2: u64 = q1 / 256;
    let q3: u64 = q2 / 256;
    let q4: u64 = q3 / 256;
    let q5: u64 = q4 / 256;
    let q6: u64 = q5 / 256;
    let q7: u64 = q6 / 256;
    out.push((x % 256) as u8);
    out.push((q1 % 256) as u8);
    out.push((q2 % 256) as u8);
    out.push((q3 % 256) as u8);
    out.push((q4 % 256) as u8);
    out.push((q5 % 256) as u8);
    out.push((q6 % 256) as u8);
    out.push((q7 % 256) as u8);
    assert(out@ =~= old(out)@ + u64_to_le(x));
}

/// Appends the eight bytes of `x`, in two's complement.
pub fn push_i64(out: &mut Vec<u8>, x: i64)
    ensures
        final(out)@ == old(out)@ + i64_to_le(x),
        final(out)@.len() == old(out)@.len() + 8,
{
    let bits: u64 = if x >= 0 {
        x as u64
    } else {
        (x - i64::MIN) as u64 + 0x8000_0000_0000_0000
    };
    push_u64(out, bits);
}

} // verus!
