use vstd::prelude::*;
use byteorder::{BigEndian, ByteOrder};

verus! {

/// The number that two bytes encode in big-endian order.
pub open spec fn be_u16_value(b0: u8, b1: u8) -> nat {
    b0 as nat * 256 + b1 as nat
}

/// The number that four bytes encode in big-endian order.
pub open spec fn be_u32_value(b0: u8, b1: u8, b2: u8, b3: u8) -> nat {
    b0 as nat * 16777216 + b1 as nat * 65536 + b2 as nat * 256 + b3 as nat
}

/// The big-endian bytes of a 16-bit number.
pub open spec fn be_u16_bytes(n: u16) -> Seq<u8> {
    seq![(n as nat / 256) as u8, (n as nat % 256) as u8]
}

/// The big-endian bytes of a 32-bit number.
pub open spec fn be_u32_bytes(n: u32) -> Seq<u8> {
    seq![
        (n as nat / 16777216) as u8,
        (n as nat / 65536 % 256) as u8,
        (n as nat / 256 % 256) as u8,
        (n as nat % 256) as u8,
    ]
}

/// byteorder's `BigEndian::read_u16`: the first two bytes read as a
/// big-endian number (it panics on shorter input, which `requires` excludes).
#[verifier::external_body]
pub(crate) fn read_u16_be(buf: &[u8]) -> (n: u16)
    requires
        buf@.len() >= 2,
    ensures
        n as nat == be_u16_value(buf@[0], buf@[1]),
{
    BigEndian::read_u16(buf)
}

/// byteorder's `BigEndian::read_u32`: the first four bytes read as a
/// big-endian number (it panics on shorter input, which `requires` excludes).
#[verifier::external_body]
pub(crate) fn read_u32_be(buf: &[u8]) -> (n: u32)
    requires
        buf@.len() >= 4,
    ensures
        n as nat == be_u32_value(buf@[0], buf@[1], buf@[2], buf@[3]),
{
    BigEndian::read_u32(buf)
}

/// byteorder's `BigEndian::write_u16`: writes the number in big-endian order
/// over the first two bytes and leaves the rest (it panics on a shorter
/// buffer, which `requires` excludes).
#[verifier::external_body]
pub(crate) fn write_u16_be(buf: &mut Vec<u8>, n: u16)
    requires
        old(buf)@.len() >= 2,
    ensures
        final(buf)@ == be_u16_bytes(n) + old(buf)@.skip(2),
{
    BigEndian::write_u16(buf.as_mut_slice(), n)
}

/// byteorder's `BigEndian::write_u32`: writes the number in big-endian order
/// over the first four bytes and leaves the rest (it panics on a shorter
/// buffer, which `requires` excludes).
#[verifier::external_body]
pub(crate) fn write_u32_be(buf: &mut Vec<u8>, n: u32)
    requires
        old(buf)@.len() >= 4,
    ensures
        final(buf)@ == be_u32_bytes(n) + old(buf)@.skip(4),
{
    BigEndian::write_u32(buf.as_mut_slice(), n)
}

/// Writing and reading a 16-bit number are inverse: for every number, the
/// big-endian bytes that `SetReplyDelay` sends read back as that number.
pub proof fn lemma_be_u16_roundtrip(n: u16)
    ensures
        be_u16_value(be_u16_bytes(n)[0], be_u16_bytes(n)[1]) == n,
{
    let m = n as nat;
    assert((m / 256) as u8 as nat == m / 256 && (m % 256) as u8 as nat == m % 256);
    assert(m / 256 * 256 + m % 256 == m) by (nonlinear_arith);
}

/// Writing and reading a 32-bit number are inverse: for every number, the
/// big-endian bytes that `SetBaudrate` sends read back as that number.
pub proof fn lemma_be_u32_roundtrip(n: u32)
    ensures
        be_u32_value(
            be_u32_bytes(n)[0],
            be_u32_bytes(n)[1],
            be_u32_bytes(n)[2],
            be_u32_bytes(n)[3],
        ) == n,
{
    let m = n as nat;
    assert(m / 16777216 < 256) by (nonlinear_arith)
        requires
            m < 4294967296,
    ;
    assert(m / 16777216 * 16777216 + m / 65536 % 256 * 65536 + m / 256 % 256 * 256 + m % 256 == m)
        by (nonlinear_arith);
}

} // verus!
