//! The big-endian integers of a frame's header.

use byteorder::{BigEndian, ByteOrder, WriteBytesExt};
use vstd::prelude::*;

verus! {

/// Number of bytes in each of the two header fields, the identifier and the payload length.
pub const FIELD_LEN: usize = 8;

/// The unsigned 64-bit number whose big-endian representation is the first eight bytes of
/// `bytes`: the first byte counts most.
pub open spec fn be_u64(bytes: Seq<u8>) -> u64
    recommends
        bytes.len() >= 8,
{
    (bytes[0] * 0x0100_0000_0000_0000
        + bytes[1] * 0x0001_0000_0000_0000
        + bytes[2] * 0x0000_0100_0000_0000
        + bytes[3] * 0x0000_0001_0000_0000
        + bytes[4] * 0x0000_0000_0100_0000
        + bytes[5] * 0x0000_0000_0001_0000
        + bytes[6] * 0x0000_0000_0000_0100
        + bytes[7]) as u64
}

/// The eight bytes that represent `n` in big-endian order.
pub open spec fn be_bytes(n: u64) -> Seq<u8> {
    seq![
        (n / 0x0100_0000_0000_0000) as u8,
        (n / 0x0001_0000_0000_0000 % 0x100) as u8,
        (n / 0x0000_0100_0000_0000 % 0x100) as u8,
        (n / 0x0000_0001_0000_0000 % 0x100) as u8,
        (n / 0x0000_0000_0100_0000 % 0x100) as u8,
        (n / 0x0000_0000_0001_0000 % 0x100) as u8,
        (n / 0x0000_0000_0000_0100 % 0x100) as u8,
        (n % 0x100) as u8,
    ]
}

/// Reading back the big-endian bytes of a number gives that number.
pub proof fn lemma_be_u64_of_be_bytes(n: u64)
    ensures
        be_bytes(n).len() == 8,
        be_u64(be_bytes(n)) == n,
{
    assert(n / 0x0100_0000_0000_0000 < 0x100 && n
        == (n / 0x0100_0000_0000_0000) * 0x0100_0000_0000_0000
        + (n / 0x0001_0000_0000_0000 % 0x100) * 0x0001_0000_0000_0000
        + (n / 0x0000_0100_0000_0000 % 0x100) * 0x0000_0100_0000_0000
        + (n / 0x0000_0001_0000_0000 % 0x100) * 0x0000_0001_0000_0000
        + (n / 0x0000_0000_0100_0000 % 0x100) * 0x0000_0000_0100_0000
        + (n / 0x0000_0000_0001_0000 % 0x100) * 0x0000_0000_0001_0000
        + (n / 0x0000_0000_0000_0100 % 0x100) * 0x0000_0000_0000_0100
        + n % 0x100) by (bit_vector);
}

/// Writing out the number that eight bytes represent gives those bytes.
pub proof fn lemma_be_bytes_of_be_u64(bytes: Seq<u8>)
    requires
        bytes.len() == 8,
    ensures
        be_bytes(be_u64(bytes)) == bytes,
{
    let (b0, b1, b2, b3): (u8, u8, u8, u8) = (bytes[0], bytes[1], bytes[2], bytes[3]);
    let (b4, b5, b6, b7): (u8, u8, u8, u8) = (bytes[4], bytes[5], bytes[6], bytes[7]);
    let n: u64 = be_u64(bytes);
    assert(n / 0x0100_0000_0000_0000 == b0
        && n / 0x0001_0000_0000_0000 % 0x100 == b1
        && n / 0x0000_0100_0000_0000 % 0x100 == b2
        && n / 0x0000_0001_0000_0000 % 0x100 == b3
        && n / 0x0000_0000_0100_0000 % 0x100 == b4
        && n / 0x0000_0000_0001_0000 % 0x100 == b5
        && n / 0x0000_0000_0000_0100 % 0x100 == b6
        && n % 0x100 == b7) by (bit_vector)
        requires
            n == b0 * 0x0100_0000_0000_0000
                + b1 * 0x0001_0000_0000_0000
                + b2 * 0x0000_0100_0000_0000
                + b3 * 0x0000_0001_0000_0000
                + b4 * 0x0000_0000_0100_0000
                + b5 * 0x0000_0000_0001_0000
                + b6 * 0x0000_0000_0000_0100
                + b7,
    ;
    assert(be_bytes(n) =~= bytes);
}

/// `byteorder::BigEndian::read_u64` gives the number that the first eight bytes of a slice
/// represent in big-endian order. It panics on a shorter slice, which the precondition
/// rules out.
#[verifier::external_body]
pub(crate) fn read_u64_be(bytes: &[u8]) -> (n: u64)
    requires
        bytes@.len() >= 8,
    ensures
        n == be_u64(bytes@),
{
    BigEndian::read_u64(bytes)
}

/// `byteorder::WriteBytesExt::write_u64::<BigEndian>`, called on a `Vec<u8>`, appends the
/// eight big-endian bytes of `n`. Its error is that of the underlying writer, and writing
/// to a vector has none.
#[verifier::external_body]
pub(crate) fn write_u64_be(out: &mut Vec<u8>, n: u64)
    ensures
        final(out)@ == old(out)@ + be_bytes(n),
{
    out.write_u64::<BigEndian>(n).unwrap();
}

} // verus!
