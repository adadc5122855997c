//! Wire layout of a frame for USB bulk and serial links: a 16-byte header,
//! the compressed RGB565 payload, and an 8-byte trailer.

use vstd::prelude::*;
use crate::lz4::{append_bytes, compress_prepend_size, lz4_block};

verus! {

/// Header magic (`image_aa` in ASCII, big-endian).
pub const IMAGE_AA: u64 = 7596835243154170209;

/// Trailer magic (`image_bb` in ASCII, big-endian).
pub const IMAGE_BB: u64 = 7596835243154170466;

/// Largest compressed payload the firmware accepts, in bytes.
pub const MAX_COMPRESSED_LEN: usize = 1024 * 28;

/// Length of the frame header.
pub const HEADER_LEN: usize = 16;

/// Two big-endian bytes of a 16-bit value.
pub open spec fn be16(v: u16) -> Seq<u8> {
    seq![(v / 256) as u8, (v % 256) as u8]
}

/// Eight big-endian bytes of a 64-bit value.
pub open spec fn be64(v: u64) -> Seq<u8> {
    seq![
        (v >> 56) as u8,
        (v >> 48) as u8,
        (v >> 40) as u8,
        (v >> 32) as u8,
        (v >> 24) as u8,
        (v >> 16) as u8,
        (v >> 8) as u8,
        v as u8,
    ]
}

/// The big-endian 16-bit value at `s[i]`, `s[i + 1]`.
pub open spec fn u16_at(s: Seq<u8>, i: int) -> u16 {
    (s[i] as int * 256 + s[i + 1] as int) as u16
}

/// The 16-byte header: magic, width, height, x, y.
pub open spec fn header_bytes(width: u16, height: u16, x: u16, y: u16) -> Seq<u8> {
    be64(IMAGE_AA) + be16(width) + be16(height) + be16(x) + be16(y)
}

/// The fields `(width, height, x, y)` of a header at the start of `s`, if it
/// is long enough and starts with the header magic.
pub open spec fn header_fields(s: Seq<u8>) -> Option<(u16, u16, u16, u16)> {
    if s.len() >= 16 && s.subrange(0, 8) == be64(IMAGE_AA) {
        Some((u16_at(s, 8), u16_at(s, 10), u16_at(s, 12), u16_at(s, 14)))
    } else {
        None
    }
}

/// How the three parts of a frame go onto the link.
#[derive(PartialEq, Eq, Structural, Clone, Copy, Debug)]
pub enum FrameLayout {
    /// Header, payload and trailer as three separate writes.
    Segmented,
    /// Header, payload and trailer joined into a single write.
    Combined,
}

/// Why a frame was not built.
#[derive(PartialEq, Eq, Structural, Clone, Copy, Debug)]
pub enum FrameError {
    /// The compressed payload is larger than `MAX_COMPRESSED_LEN`.
    TooLarge { compressed_len: usize },
}

/// The contents of a list of byte buffers.
pub open spec fn buffer_views(v: Seq<Vec<u8>>) -> Seq<Seq<u8>> {
    v.map_values(|b: Vec<u8>| b@)
}

/// The writes that carry one frame, in order.
pub open spec fn frame_writes_spec(
    payload: Seq<u8>,
    width: u16,
    height: u16,
    x: u16,
    y: u16,
    layout: FrameLayout,
) -> Seq<Seq<u8>> {
    match layout {
        FrameLayout::Segmented => seq![header_bytes(width, height, x, y), payload, be64(IMAGE_BB)],
        FrameLayout::Combined => seq![header_bytes(width, height, x, y) + payload + be64(IMAGE_BB)],
    }
}

/// Eight big-endian bytes of `v`.
pub fn u64_be_bytes(v: u64) -> (r: Vec<u8>)
    ensures
        r@ == be64(v),
{
    let mut r: Vec<u8> = Vec::new();
    r.push((v >> 56) as u8);
    r.push((v >> 48) as u8);
    r.push((v >> 40) as u8);
    r.push((v >> 32) as u8);
    r.push((v >> 24) as u8);
    r.push((v >> 16) as u8);
    r.push((v >> 8) as u8);
    r.push(v as u8);
    assert(r@ == be64(v));
    r
}

/// Appends the two big-endian bytes of `v`.
pub fn push_u16_be(out: &mut Vec<u8>, v: u16)
    ensures
        final(out)@ == old(out)@ + be16(v),
{
    let hi: u8 = (v >> 8) as u8;
    let lo: u8 = (v & 0xff) as u8;
    assert(hi == v / 256 && lo == v % 256) by (bit_vector)
        requires
            hi == (v >> 8) as u8,
            lo == (v & 0xff) as u8,
    ;
    out.push(hi);
    out.push(lo);
    assert(final(out)@ == old(out)@ + be16(v));
}

/// Builds the 16-byte frame header for a `width` x `height` buffer drawn at (`x`, `y`).
pub fn frame_header(width: u16, height: u16, x: u16, y: u16) -> (r: Vec<u8>)
    ensures
        r@ == header_bytes(width, height, x, y),
        r@.len() == HEADER_LEN,
{
    let mut r = u64_be_bytes(IMAGE_AA);
    push_u16_be(&mut r, width);
    push_u16_be(&mut r, height);
    push_u16_be(&mut r, x);
    push_u16_be(&mut r, y);
    r
}

/// Reads `(width, height, x, y)` back from the start of `bytes`; `None` if the
/// bytes are too short or do not start with the header magic.
pub fn parse_frame_header(bytes: &[u8]) -> (r: Option<(u16, u16, u16, u16)>)
    ensures
        r == header_fields(bytes@),
{
    if bytes.len() < HEADER_LEN {
        return None;
    }
    let magic = u64_be_bytes(IMAGE_AA);
    let mut i: usize = 0;
    while i < 8
        invariant
            bytes@.len() >= 16,
            magic@ == be64(IMAGE_AA),
            i <= 8,
            forall|j: int| 0 <= j < i ==> bytes@[j] == magic@[j],
        decreases 8 - i,
    {
        if bytes[i] != magic[i] {
            proof {
                assert(bytes@.subrange(0, 8)[i as int] != be64(IMAGE_AA)[i as int]);
            }
            return None;
        }
        i = i + 1;
    }
    assert(bytes@.subrange(0, 8) == be64(IMAGE_AA));
    Some((read_u16_be(bytes, 8), read_u16_be(bytes, 10), read_u16_be(bytes, 12), read_u16_be(bytes, 14)))
}

/// The big-endian 16-bit value at `bytes[i]`, `bytes[i + 1]`.
pub fn read_u16_be(bytes: &[u8], i: usize) -> (r: u16)
    requires
        i + 1 < bytes@.len(),
    ensures
        r == u16_at(bytes@, i as int),
{
    let hi: u8 = bytes[i];
    let lo: u8 = bytes[i + 1];
    let r: u16 = ((hi as u16) << 8) | (lo as u16);
    assert(r == hi * 256 + lo) by (bit_vector)
        requires
            r == ((hi as u16) << 8) | (lo as u16),
    ;
    r
}

/// The writes that carry an already compressed payload for a `width` x
/// `height` buffer drawn at (`x`, `y`); no write when the payload is over the
/// ceiling.
pub fn payload_writes(
    payload: Vec<u8>,
    x: u16,
    y: u16,
    width: u16,
    height: u16,
    layout: FrameLayout,
) -> (r: Result<Vec<Vec<u8>>, FrameError>)
    ensures
        payload@.len() <= MAX_COMPRESSED_LEN <==> r is Ok,
        r is Ok ==> buffer_views(r->Ok_0@) == frame_writes_spec(payload@, width, height, x, y, layout),
        r is Err ==> (r matches Err(FrameError::TooLarge { compressed_len })
            && compressed_len == payload@.len()),
{
    if payload.len() > MAX_COMPRESSED_LEN {
        return Err(FrameError::TooLarge { compressed_len: payload.len() });
    }
    let ghost p = payload@;
    let header = frame_header(width, height, x, y);
    let trailer = u64_be_bytes(IMAGE_BB);
    let mut writes: Vec<Vec<u8>> = Vec::new();
    match layout {
        FrameLayout::Segmented => {
            writes.push(header);
            writes.push(payload);
            writes.push(trailer);
        },
        FrameLayout::Combined => {
            let mut frame = header;
            append_bytes(&mut frame, payload.as_slice());
            append_bytes(&mut frame, trailer.as_slice());
            writes.push(frame);
        },
    }
    assert(buffer_views(writes@) =~= frame_writes_spec(p, width, height, x, y, layout));
    Ok(writes)
}

/// The writes that put one RGB565 buffer of `width` x `height` pixels at
/// (`x`, `y`) on the screen: header, compressed payload and trailer, as three
/// writes or as one. No write is produced when the payload is too large.
pub fn frame_writes(
    rgb565: &[u8],
    x: u16,
    y: u16,
    width: u16,
    height: u16,
    layout: FrameLayout,
) -> (r: Result<Vec<Vec<u8>>, FrameError>)
    ensures
        lz4_block(rgb565@).len() <= MAX_COMPRESSED_LEN <==> r is Ok,
        r is Ok ==> buffer_views(r->Ok_0@) == frame_writes_spec(
            lz4_block(rgb565@),
            width,
            height,
            x,
            y,
            layout,
        ),
        r is Err ==> (r matches Err(FrameError::TooLarge { compressed_len })
            && compressed_len == lz4_block(rgb565@).len()),
{
    payload_writes(compress_prepend_size(rgb565), x, y, width, height, layout)
}

/// Reading back a header that was built from `(width, height, x, y)` gives the
/// same four values.
pub proof fn lemma_header_round_trip(width: u16, height: u16, x: u16, y: u16)
    ensures
        header_fields(header_bytes(width, height, x, y)) == Some((width, height, x, y)),
{
    let s = header_bytes(width, height, x, y);
    assert(s.len() == 16);
    assert(s.subrange(0, 8) =~= be64(IMAGE_AA));
    assert(u16_at(s, 8) == width);
    assert(u16_at(s, 10) == height);
    assert(u16_at(s, 12) == x);
    assert(u16_at(s, 14) == y);
}

} // verus!
