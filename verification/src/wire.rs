//! Big-endian integer fields, as they appear in packet headers and payloads.

use vstd::prelude::*;

verus! {

/// The two bytes of `x`, most significant first.
pub open spec fn spec_u16_be(x: u16) -> Seq<u8> {
    seq![(x / 0x100) as u8, (x % 0x100) as u8]
}

/// The four bytes of `x`, most significant first.
pub open spec fn spec_u32_be(x: u32) -> Seq<u8> {
    seq![
        (x / 0x100_0000) as u8,
        (x / 0x1_0000 % 0x100) as u8,
        (x / 0x100 % 0x100) as u8,
        (x % 0x100) as u8,
    ]
}

/// The integer whose big-endian bytes are `bytes[at]` and `bytes[at + 1]`.
pub open spec fn spec_u16_at(bytes: Seq<u8>, at: int) -> u16 {
    (bytes[at] * 0x100 + bytes[at + 1]) as u16
}

/// The integer whose big-endian bytes are `bytes[at] .. bytes[at + 3]`.
pub open spec fn spec_u32_at(bytes: Seq<u8>, at: int) -> u32 {
    (bytes[at] * 0x100_0000 + bytes[at + 1] * 0x1_0000 + bytes[at + 2] * 0x100 + bytes[at + 3]) as u32
}

/// A 16-bit field reads back as the integer whose bytes were written there.
pub proof fn lemma_u16_field(bytes: Seq<u8>, at: int, x: u16)
    requires
        0 <= at,
        at + 2 <= bytes.len(),
        bytes.subrange(at, at + 2) == spec_u16_be(x),
    ensures
        spec_u16_at(bytes, at) == x,
{
    let field = bytes.subrange(at, at + 2);
    assert(field[0] == bytes[at] && field[1] == bytes[at + 1]);
}

/// A 32-bit field reads back as the integer whose bytes were written there.
pub proof fn lemma_u32_field(bytes: Seq<u8>, at: int, x: u32)
    requires
        0 <= at,
        at + 4 <= bytes.len(),
        bytes.subrange(at, at + 4) == spec_u32_be(x),
    ensures
        spec_u32_at(bytes, at) == x,
{
    let field = bytes.subrange(at, at + 4);
    assert(field[0] == bytes[at] && field[1] == bytes[at + 1] && field[2] == bytes[at + 2]
        && field[3] == bytes[at + 3]);
}

/// Appends the big-endian bytes of `x` to `buf`.
pub fn push_u16_be(buf: &mut Vec<u8>, x: u16)
    ensures
        final(buf)@ == old(buf)@ + spec_u16_be(x),
{
    buf.push((x / 0x100) as u8);
    buf.push((x % 0x100) as u8);
}

/// Appends the big-endian bytes of `x` to `buf`.
pub fn push_u32_be(buf: &mut Vec<u8>, x: u32)
    ensures
        final(buf)@ == old(buf)@ + spec_u32_be(x),
{
    buf.push((x / 0x100_0000) as u8);
    buf.push((x / 0x1_0000 % 0x100) as u8);
    buf.push((x / 0x100 % 0x100) as u8);
    buf.push((x % 0x100) as u8);
}

/// Reads the big-endian 16-bit integer at `at`.
pub fn read_u16_be(bytes: &[u8], at: usize) -> (x: u16)
    requires
        at + 2 <= bytes@.len(),
    ensures
        x == spec_u16_at(bytes@, at as int),
{
    let hi: u16 = bytes[at] as u16;
    let lo: u16 = bytes[at + 1] as u16;
    hi * 0x100 + lo
}

/// Reads the big-endian 32-bit integer at `at`.
pub fn read_u32_be(bytes: &[u8], at: usize) -> (x: u32)
    requires
        at + 4 <= bytes@.len(),
    ensures
        x == spec_u32_at(bytes@, at as int),
{
    let b0: u32 = bytes[at] as u32;
    let b1: u32 = bytes[at + 1] as u32;
    let b2: u32 = bytes[at + 2] as u32;
    let b3: u32 = bytes[at + 3] as u32;
    b0 * 0x100_0000 + b1 * 0x1_0000 + b2 * 0x100 + b3
}

} // verus!
