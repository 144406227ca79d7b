use vstd::prelude::*;

verus! {

/// Sum of all bytes of a sequence, as a natural number.
pub open spec fn byte_sum(s: Seq<u8>) -> nat
    decreases s.len(),
{
    if s.len() == 0 {
        0
    } else {
        byte_sum(s.drop_last()) + s.last() as nat
    }
}

/// The SHDLC checksum of a byte sequence: the bitwise inverse of the low
/// byte of the sum of all bytes.
pub open spec fn spec_checksum(s: Seq<u8>) -> u8 {
    (255 - byte_sum(s) % 256) as u8
}

/// Calculate the SHDLC checksum for a frame slice.
/// Checksum is the inverted sum of all bytes modulo 256.
pub fn calculate_checksum(data: &[u8]) -> (checksum: u8)
    ensures
        checksum == spec_checksum(data@),
{
    let mut sum: u32 = 0;
    let mut i: usize = 0;
    while i < data.len()
        invariant
            i <= data.len(),
            sum < 256,
            sum == byte_sum(data@.take(i as int)) % 256,
        decreases data.len() - i,
    {
        assert(data@.take(i as int + 1).drop_last() =~= data@.take(i as int));
        sum = (sum + data[i] as u32) % 256;
        i = i + 1;
    }
    assert(data@.take(i as int) =~= data@);
    (255 - sum) as u8
}

/// A frame content followed by its checksum always checks: for every byte
/// sequence, the bytes of the sequence and its checksum sum to 255 modulo 256.
pub proof fn lemma_checksum_completes(s: Seq<u8>)
    ensures
        byte_sum(s.push(spec_checksum(s))) % 256 == 255,
{
    assert(s.push(spec_checksum(s)).drop_last() =~= s);
    let t = byte_sum(s);
    assert((t + (255 - t % 256)) % 256 == 255) by (nonlinear_arith);
}

} // verus!
