//! Little-endian integers on the wire.

use vstd::prelude::*;

verus! {

/// The value of the four bytes from `at` on, read as a little-endian integer.
pub open spec fn u32_at(bytes: Seq<u8>, at: int) -> u32
    recommends
        0 <= at,
        at + 4 <= bytes.len(),
{
    (bytes[at] + 0x100 * bytes[at + 1] + 0x1_0000 * bytes[at + 2] + 0x100_0000 * bytes[at + 3]) as u32
}

/// The four bytes that hold `x` in little-endian order.
#[verifier::opaque]
pub open spec fn u32_to_le(x: u32) -> Seq<u8> {
    seq![
        (x % 0x100) as u8,
        (x / 0x100 % 0x100) as u8,
        (x / 0x1_0000 % 0x100) as u8,
        (x / 0x100_0000) as u8,
    ]
}

/// Reading back what was written gives the integer that was written.
pub proof fn lemma_u32_le_round_trip(x: u32)
    ensures
        u32_to_le(x).len() == 4,
        u32_at(u32_to_le(x), 0) == x,
{
    reveal(u32_to_le);
}

/// Reads the little-endian `u32` that starts at `at`.
pub fn read_u32_le(bytes: &[u8], at: usize) -> (x: u32)
    requires
        at + 4 <= bytes.len(),
    ensures
        x == u32_at(bytes@, at as int),
{
    let b0: u32 = bytes[at] as u32;
    let b1: u32 = bytes[at + 1] as u32;
    let b2: u32 = bytes[at + 2] as u32;
    let b3: u32 = bytes[at + 3] as u32;
    b0 + 0x100 * b1 + 0x1_0000 * b2 + 0x100_0000 * b3
}

/// Appends `x` in little-endian order.
pub fn push_u32_le(out: &mut Vec<u8>, x: u32)
    ensures
        final(out)@ == old(out)@ + u32_to_le(x),
{
    out.push((x % 0x100) as u8);
    out.push((x / 0x100 % 0x100) as u8);
    out.push((x / 0x1_0000 % 0x100) as u8);
    out.push((x / 0x100_0000) as u8);
    proof {
        reveal(u32_to_le);
    }
}

/// The value of the eight bytes from `at` on, read as a little-endian
/// integer.
pub open spec fn u64_at(bytes: Seq<u8>, at: int) -> u64
    recommends
        0 <= at,
        at + 8 <= bytes.len(),
{
    (bytes[at] + 0x100 * bytes[at + 1] + 0x1_0000 * bytes[at + 2] + 0x100_0000 * bytes[at + 3]
        + 0x1_0000_0000 * bytes[at + 4] + 0x100_0000_0000 * bytes[at + 5] + 0x1_0000_0000_0000
        * bytes[at + 6] + 0x100_0000_0000_0000 * bytes[at + 7]) as u64
}

/// The eight bytes that hold `x` in little-endian order.
#[verifier::opaque]
pub open spec fn u64_to_le(x: u64) -> Seq<u8> {
    seq![
        (x % 0x100) as u8,
        (x / 0x100 % 0x100) as u8,
        (x / 0x1_0000 % 0x100) as u8,
        (x / 0x100_0000 % 0x100) as u8,
        (x / 0x1_0000_0000 % 0x100) as u8,
        (x / 0x100_0000_0000 % 0x100) as u8,
        (x / 0x1_0000_0000_0000 % 0x100) as u8,
        (x / 0x100_0000_0000_0000) as u8,
    ]
}

/// Reading back what was written gives the integer that was written.
pub proof fn lemma_u64_le_round_trip(x: u64)
    ensures
        u64_to_le(x).len() == 8,
        u64_at(u64_to_le(x), 0) == x,
{
    reveal(u64_to_le);
    let q1 = x / 0x100;
    let q2 = q1 / 0x100;
    let q3 = q2 / 0x100;
    let q4 = q3 / 0x100;
    let q5 = q4 / 0x100;
    let q6 = q5 / 0x100;
    let q7 = q6 / 0x100;
    assert(x / 0x1_0000 == q2);
    assert(x / 0x100_0000 == q3);
    assert(x / 0x1_0000_0000 == q4);
    assert(x / 0x100_0000_0000 == q5);
    assert(x / 0x1_0000_0000_0000 == q6);
    assert(x / 0x100_0000_0000_0000 == q7);
    assert(q7 < 0x100);
    assert(x == x % 0x100 + 0x100 * (q1 % 0x100) + 0x1_0000 * (q2 % 0x100) + 0x100_0000 * (q3
        % 0x100) + 0x1_0000_0000 * (q4 % 0x100) + 0x100_0000_0000 * (q5 % 0x100)
        + 0x1_0000_0000_0000 * (q6 % 0x100) + 0x100_0000_0000_0000 * q7);
}

/// Reads the little-endian `u64` that starts at `at`.
pub fn read_u64_le(bytes: &[u8], at: usize) -> (x: u64)
    requires
        at + 8 <= bytes.len(),
    ensures
        x == u64_at(bytes@, at as int),
{
    let b0: u64 = bytes[at] as u64;
    let b1: u64 = bytes[at + 1] as u64;
    let b2: u64 = bytes[at + 2] as u64;
    let b3: u64 = bytes[at + 3] as u64;
    let b4: u64 = bytes[at + 4] as u64;
    let b5: u64 = bytes[at + 5] as u64;
    let b6: u64 = bytes[at + 6] as u64;
    let b7: u64 = bytes[at + 7] as u64;
    b0 + 0x100 * b1 + 0x1_0000 * b2 + 0x100_0000 * b3 + 0x1_0000_0000 * b4 + 0x100_0000_0000 * b5
        + 0x1_0000_0000_0000 * b6 + 0x100_0000_0000_0000 * b7
}

/// Appends `x` in little-endian order.
pub fn push_u64_le(out: &mut Vec<u8>, x: u64)
    ensures
        final(out)@ == old(out)@ + u64_to_le(x),
{
    out.push((x % 0x100) as u8);
    out.push((x / 0x100 % 0x100) as u8);
    out.push((x / 0x1_0000 % 0x100) as u8);
    out.push((x / 0x100_0000 % 0x100) as u8);
    out.push((x / 0x1_0000_0000 % 0x100) as u8);
    out.push((x / 0x100_0000_0000 % 0x100) as u8);
    out.push((x / 0x1_0000_0000_0000 % 0x100) as u8);
    out.push((x / 0x100_0000_0000_0000) as u8);
    proof {
        reveal(u64_to_le);
    }
}

/// Overwrites the eight bytes from `at` on with `x` in little-endian
/// order.
pub fn set_u64_le(out: &mut Vec<u8>, at: usize, x: u64)
    requires
        at + 8 <= old(out).len(),
    ensures
        final(out)@ == old(out)@.subrange(0, at as int) + u64_to_le(x) + old(out)@.subrange(
            at + 8,
            old(out)@.len() as int,
        ),
{
    out[at] = (x % 0x100) as u8;
    out[at + 1] = (x / 0x100 % 0x100) as u8;
    out[at + 2] = (x / 0x1_0000 % 0x100) as u8;
    out[at + 3] = (x / 0x100_0000 % 0x100) as u8;
    out[at + 4] = (x / 0x1_0000_0000 % 0x100) as u8;
    out[at + 5] = (x / 0x100_0000_0000 % 0x100) as u8;
    out[at + 6] = (x / 0x1_0000_0000_0000 % 0x100) as u8;
    out[at + 7] = (x / 0x100_0000_0000_0000) as u8;
    proof {
        reveal(u64_to_le);
    }
    assert(out@ =~= old(out)@.subrange(0, at as int) + u64_to_le(x) + old(out)@.subrange(
        at + 8,
        old(out)@.len() as int,
    ));
}

} // verus!
