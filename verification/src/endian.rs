//! Little-endian byte order of the integer fields of a header.
//!
//! The bytes themselves are produced by the `byteorder` crate; this module
//! states what they are and proves that they read back as the number.

use byteorder::{ByteOrder, LittleEndian};
use vstd::prelude::*;

verus! {

/// The two bytes of `n`, least significant first.
pub open spec fn u16_le(n: u16) -> Seq<u8> {
    seq![(n % 256) as u8, (n / 256) as u8]
}

/// The four bytes of `n`, least significant first.
pub open spec fn u32_le(n: u32) -> Seq<u8> {
    seq![
        (n % 256) as u8,
        (n / 256 % 256) as u8,
        (n / 65536 % 256) as u8,
        (n / 16777216) as u8,
    ]
}

/// The four bytes of the two's complement form of `n`, least significant
/// first.
pub open spec fn i32_le(n: i32) -> Seq<u8> {
    u32_le(n as u32)
}

/// The number that four bytes stand for in little-endian order.
pub open spec fn u32_from_le(bytes: Seq<u8>) -> int {
    bytes[0] + 256 * bytes[1] + 65536 * bytes[2] + 16777216 * bytes[3]
}

/// Little-endian bytes of a `u16`.
///
/// Calls `byteorder::LittleEndian::write_u16` on a two-byte buffer, which
/// copies `n.to_le_bytes()` into it. The contract claims that the buffer
/// then holds the low byte of `n` followed by its high byte.
#[verifier::external_body]
pub(crate) fn u16_to_le(n: u16) -> (bytes: [u8; 2])
    ensures
        bytes@ == u16_le(n),
{
    let mut bytes = [0u8; 2];
    LittleEndian::write_u16(&mut bytes, n);
    bytes
}

/// Little-endian bytes of a `u32`.
///
/// Calls `byteorder::LittleEndian::write_u32` on a four-byte buffer, which
/// copies `n.to_le_bytes()` into it. The contract claims that the buffer
/// then holds the four bytes of `n` from the least to the most significant.
#[verifier::external_body]
pub(crate) fn u32_to_le(n: u32) -> (bytes: [u8; 4])
    ensures
        bytes@ == u32_le(n),
{
    let mut bytes = [0u8; 4];
    LittleEndian::write_u32(&mut bytes, n);
    bytes
}

/// Little-endian bytes of an `i32`.
///
/// Calls `byteorder::LittleEndian::write_i32` on a four-byte buffer, which
/// casts `n` to `u32` and writes that as `write_u32` does. The contract
/// claims that the buffer then holds the four bytes of the two's complement
/// form of `n` from the least to the most significant.
#[verifier::external_body]
pub(crate) fn i32_to_le(n: i32) -> (bytes: [u8; 4])
    ensures
        bytes@ == i32_le(n),
{
    let mut bytes = [0u8; 4];
    LittleEndian::write_i32(&mut bytes, n);
    bytes
}

/// The bytes of a `u32` read back as the number.
pub proof fn lemma_u32_le_reads_back(n: u32)
    ensures
        u32_le(n).len() == 4,
        u32_from_le(u32_le(n)) == n,
{
}

/// A `u32` stored in a signed field takes the same four bytes as in an
/// unsigned one.
pub proof fn lemma_signed_field(n: u32)
    ensures
        i32_le(n as i32) == u32_le(n),
{
    assert((n as i32) as u32 == n) by (bit_vector);
}

} // verus!
