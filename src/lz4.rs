//! The byte-stream compressor shared by every transport.

use vstd::prelude::*;

verus! {

/// The LZ4 block that `lz4_flex` produces for `data`, size prefix included.
pub uninterp spec fn lz4_block(data: Seq<u8>) -> Seq<u8>;

/// The four little-endian bytes of a 32-bit value.
pub open spec fn le32(v: u32) -> Seq<u8> {
    seq![(v % 0x100) as u8, ((v / 0x100) % 0x100) as u8, ((v / 0x1_0000) % 0x100) as u8, (v / 0x100_0000) as u8]
}

/// Relies on `lz4_flex::compress_prepend_size`: the compressed block depends on
/// the input alone, and begins with the input length as a little-endian `u32`
/// (the length is cast with `as u32`).
#[verifier::external_body]
pub(crate) fn compress_prepend_size(data: &[u8]) -> (r: Vec<u8>)
    ensures
        r@ == lz4_block(data@),
        r@.len() >= 4,
        r@.subrange(0, 4) == le32((data@.len() % 0x1_0000_0000) as u32),
{
    lz4_flex::compress_prepend_size(data)
}

/// Appends `src` to `out`.
pub fn append_bytes(out: &mut Vec<u8>, src: &[u8])
    ensures
        final(out)@ == old(out)@ + src@,
{
    let mut i: usize = 0;
    while i < src.len()
        invariant
            i <= src@.len(),
            out@ == old(out)@ + src@.subrange(0, i as int),
        decreases src@.len() - i,
    {
        out.push(src[i]);
        i = i + 1;
        proof {
            assert(src@.subrange(0, i as int) == src@.subrange(0, i - 1) + seq![src@[i - 1]]);
        }
    }
    proof {
        assert(src@.subrange(0, src@.len() as int) == src@);
    }
}

} // verus!
