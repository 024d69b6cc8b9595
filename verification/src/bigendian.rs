//! Thirty-two-bit integers as four bytes, most significant byte first.

use vstd::prelude::*;

verus! {

/// The integer whose big-endian representation is the first four bytes of
/// `bytes`.
#[verifier::opaque]
pub open spec fn u32_from_be(bytes: Seq<u8>) -> u32
    recommends
        bytes.len() >= 4,
{
    (bytes[0] * 0x100_0000 + bytes[1] * 0x1_0000 + bytes[2] * 0x100 + bytes[3]) as u32
}

/// The four bytes that represent `x`, most significant first.
#[verifier::opaque]
pub open spec fn u32_to_be(x: u32) -> Seq<u8> {
    seq![
        (x / 0x100_0000) as u8,
        ((x / 0x1_0000) % 0x100) as u8,
        ((x / 0x100) % 0x100) as u8,
        (x % 0x100) as u8,
    ]
}

/// The four parts into which the representation splits an integer put it
/// together again.
proof fn lemma_split(x: u32)
    ensures
        x / 0x100_0000 < 0x100,
        (x / 0x100_0000) * 0x100_0000 + ((x / 0x1_0000) % 0x100) * 0x1_0000 + ((x / 0x100) % 0x100)
            * 0x100 + x % 0x100 == x,
{
    assert(x / 0x100_0000 < 0x100) by (bit_vector);
    assert((x / 0x100_0000) * 0x100_0000 + ((x / 0x1_0000) % 0x100) * 0x1_0000 + ((x / 0x100)
        % 0x100) * 0x100 + x % 0x100 == x) by (bit_vector);
}

/// An integer put together from four bytes splits into those bytes.
proof fn lemma_join(b0: u8, b1: u8, b2: u8, b3: u8)
    ensures
        ({
            let x = b0 * 0x100_0000 + b1 * 0x1_0000 + b2 * 0x100 + b3;
            &&& 0 <= x <= u32::MAX
            &&& x / 0x100_0000 == b0
            &&& (x / 0x1_0000) % 0x100 == b1
            &&& (x / 0x100) % 0x100 == b2
            &&& x % 0x100 == b3
        }),
{
    let x = b0 * 0x100_0000 + b1 * 0x1_0000 + b2 * 0x100 + b3;
    assert(x == 0x100 * (0x100 * (0x100 * b0 + b1) + b2) + b3);
    assert(x == 0x1_0000 * (0x100 * b0 + b1) + (0x100 * b2 + b3));
    assert(x == 0x100_0000 * b0 + (0x1_0000 * b1 + 0x100 * b2 + b3));
    vstd::arithmetic::div_mod::lemma_fundamental_div_mod_converse(
        x,
        0x100,
        0x100 * (0x100 * b0 + b1) + b2,
        b3 as int,
    );
    vstd::arithmetic::div_mod::lemma_fundamental_div_mod_converse(
        0x100 * (0x100 * b0 + b1) + b2,
        0x100,
        0x100 * b0 + b1,
        b2 as int,
    );
    vstd::arithmetic::div_mod::lemma_fundamental_div_mod_converse(
        x,
        0x1_0000,
        0x100 * b0 + b1,
        0x100 * b2 + b3,
    );
    vstd::arithmetic::div_mod::lemma_fundamental_div_mod_converse(
        0x100 * b0 + b1,
        0x100,
        b0 as int,
        b1 as int,
    );
    vstd::arithmetic::div_mod::lemma_fundamental_div_mod_converse(
        x,
        0x100_0000,
        b0 as int,
        0x1_0000 * b1 + 0x100 * b2 + b3,
    );
}

/// Reading back the representation of an integer gives the integer.
pub proof fn lemma_from_be_to_be(x: u32)
    ensures
        u32_to_be(x).len() == 4,
        u32_from_be(u32_to_be(x)) == x,
{
    reveal(u32_from_be);
    reveal(u32_to_be);
    lemma_split(x);
}

/// Four bytes are the representation of the integer read from them.
pub proof fn lemma_to_be_from_be(bytes: Seq<u8>)
    requires
        bytes.len() == 4,
    ensures
        u32_to_be(u32_from_be(bytes)) == bytes,
{
    reveal(u32_from_be);
    reveal(u32_to_be);
    lemma_join(bytes[0], bytes[1], bytes[2], bytes[3]);
    assert(u32_to_be(u32_from_be(bytes)) =~= bytes);
}

/// Reads the big-endian integer that starts at `at`.
pub fn read_u32_be(bytes: &[u8], at: usize) -> (r: u32)
    requires
        at + 4 <= bytes@.len(),
    ensures
        r == u32_from_be(bytes@.subrange(at as int, at + 4)),
{
    proof {
        reveal(u32_from_be);
    }
    let b0: u32 = bytes[at] as u32;
    let b1: u32 = bytes[at + 1] as u32;
    let b2: u32 = bytes[at + 2] as u32;
    let b3: u32 = bytes[at + 3] as u32;
    b0 * 0x100_0000 + b1 * 0x1_0000 + b2 * 0x100 + b3
}

/// The big-endian representation of `x`.
pub fn u32_be_bytes(x: u32) -> (r: [u8; 4])
    ensures
        r@ == u32_to_be(x),
{
    let r: [u8; 4] = [
        (x / 0x100_0000) as u8,
        ((x / 0x1_0000) % 0x100) as u8,
        ((x / 0x100) % 0x100) as u8,
        (x % 0x100) as u8,
    ];
    proof {
        reveal(u32_to_be);
        assert(r@ =~= u32_to_be(x));
    }
    r
}

} // verus!
