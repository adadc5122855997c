//! RGB888 <-> RGB565 pixel codec (big-endian on the wire).

use vstd::prelude::*;

verus! {

/// An 8-bit channel plus `half`, capped at 255 (the rounding offset before the shift).
pub open spec fn rounded(v: u8, half: int) -> int {
    if v + half > 255 {
        255
    } else {
        v + half
    }
}

/// Nearest 5-bit level of an 8-bit channel.
pub open spec fn quantize5(v: u8) -> int {
    rounded(v, 4) / 8
}

/// Nearest 6-bit level of an 8-bit channel.
pub open spec fn quantize6(v: u8) -> int {
    rounded(v, 2) / 4
}

/// 5-bit level widened to 8 bits, its high bits repeated in the low bits.
pub open spec fn expand5(q: int) -> int {
    q * 8 + q / 4
}

/// 6-bit level widened to 8 bits, its high bits repeated in the low bits.
pub open spec fn expand6(q: int) -> int {
    q * 4 + q / 16
}

/// The 16-bit `RRRRR GGGGGG BBBBB` value of one pixel.
pub open spec fn pack565(r: u8, g: u8, b: u8) -> int {
    quantize5(r) * 2048 + quantize6(g) * 32 + quantize5(b)
}

/// The packed value of pixel `i` of a row-major RGB888 buffer.
pub open spec fn pixel565(img: Seq<u8>, i: int) -> int {
    pack565(img[3 * i], img[3 * i + 1], img[3 * i + 2])
}

/// The big-endian RGB565 bytes of a row-major RGB888 buffer.
pub open spec fn rgb565_of(img: Seq<u8>) -> Seq<u8> {
    Seq::new(
        (img.len() / 3 * 2) as nat,
        |k: int|
            if k % 2 == 0 {
                (pixel565(img, k / 2) / 256) as u8
            } else {
                (pixel565(img, k / 2) % 256) as u8
            },
    )
}

/// Absolute difference.
pub open spec fn abs_diff(a: int, b: int) -> int {
    if a >= b {
        a - b
    } else {
        b - a
    }
}

/// Quantizes one RGB888 pixel to RGB565, rounding each channel to the nearest level.
pub fn rgb_to_rgb565(r: u8, g: u8, b: u8) -> (p: u16)
    ensures
        p as int == pack565(r, g, b),
{
    let rr: u16 = if r < 252 { r as u16 + 4 } else { 255 };
    let gg: u16 = if g < 254 { g as u16 + 2 } else { 255 };
    let bb: u16 = if b < 252 { b as u16 + 4 } else { 255 };
    let r5: u16 = rr >> 3;
    let g6: u16 = gg >> 2;
    let b5: u16 = bb >> 3;
    assert(r5 == rr / 8 && b5 == bb / 8 && g6 == gg / 4) by (bit_vector)
        requires
            r5 == rr >> 3,
            g6 == gg >> 2,
            b5 == bb >> 3,
    ;
    assert((r5 << 11) | (g6 << 5) | b5 == r5 * 2048 + g6 * 32 + b5) by (bit_vector)
        requires
            r5 < 32,
            g6 < 64,
            b5 < 32,
    ;
    (r5 << 11) | (g6 << 5) | b5
}

/// Widens one RGB565 value back to RGB888.
pub fn rgb565_to_rgb(p: u16) -> (c: (u8, u8, u8))
    ensures
        c.0 as int == expand5(p as int / 2048),
        c.1 as int == expand6((p as int / 32) % 64),
        c.2 as int == expand5(p as int % 32),
{
    let r5: u16 = (p >> 11) & 0x1f;
    let g6: u16 = (p >> 5) & 0x3f;
    let b5: u16 = p & 0x1f;
    assert(r5 == p / 2048 && g6 == (p / 32) % 64 && b5 == p % 32) by (bit_vector)
        requires
            r5 == (p >> 11) & 0x1f,
            g6 == (p >> 5) & 0x3f,
            b5 == p & 0x1f,
    ;
    assert(((r5 << 3) | (r5 >> 2)) == r5 * 8 + r5 / 4 && ((b5 << 3) | (b5 >> 2)) == b5 * 8 + b5
        / 4 && ((g6 << 2) | (g6 >> 4)) == g6 * 4 + g6 / 16) by (bit_vector)
        requires
            r5 < 32,
            g6 < 64,
            b5 < 32,
    ;
    (((r5 << 3) | (r5 >> 2)) as u8, ((g6 << 2) | (g6 >> 4)) as u8, ((b5 << 3) | (b5 >> 2)) as u8)
}

/// Converts a row-major RGB888 buffer to big-endian RGB565, two bytes per pixel.
/// `width` and `height` describe the buffer; the pixels are read from `img` alone.
pub fn rgb888_to_rgb565_be(img: &[u8], width: usize, height: usize) -> (out: Vec<u8>)
    requires
        img@.len() % 3 == 0,
    ensures
        out@ == rgb565_of(img@),
        out@.len() == img@.len() / 3 * 2,
        forall|i: int|
            0 <= i < img@.len() / 3 ==> {
                &&& #[trigger] out@[2 * i] as int == pixel565(img@, i) / 256
                &&& out@[2 * i + 1] as int == pixel565(img@, i) % 256
            },
{
    let n: usize = img.len() / 3;
    let mut out: Vec<u8> = Vec::new();
    let mut i: usize = 0;
    let mut k: usize = 0;
    while i < n
        invariant
            n == img@.len() / 3,
            img@.len() % 3 == 0,
            i <= n,
            k == 3 * i,
            out@.len() == 2 * i,
            forall|j: int|
                0 <= j < i ==> {
                    &&& #[trigger] out@[2 * j] as int == pixel565(img@, j) / 256
                    &&& out@[2 * j + 1] as int == pixel565(img@, j) % 256
                },
        decreases n - i,
    {
        let p: u16 = rgb_to_rgb565(img[k], img[k + 1], img[k + 2]);
        let hi: u8 = (p >> 8) as u8;
        let lo: u8 = (p & 0xff) as u8;
        assert(hi == p / 256 && lo == p % 256) by (bit_vector)
            requires
                hi == (p >> 8) as u8,
                lo == (p & 0xff) as u8,
        ;
        let ghost before = out@;
        out.push(hi);
        out.push(lo);
        proof {
            assert(out@ == before.push(hi).push(lo));
            assert forall|j: int| 0 <= j < i + 1 implies {
                &&& #[trigger] out@[2 * j] as int == pixel565(img@, j) / 256
                &&& out@[2 * j + 1] as int == pixel565(img@, j) % 256
            } by {
                if j < i {
                    assert(out@[2 * j] == before[2 * j]);
                    assert(out@[2 * j + 1] == before[2 * j + 1]);
                } else {
                    assert(j == i);
                    assert(out@[2 * j] == hi);
                    assert(out@[2 * j + 1] == lo);
                }
            }
        }
        i = i + 1;
        k = k + 3;
    }
    assert forall|m: int| 0 <= m < out@.len() implies out@[m] == rgb565_of(img@)[m] by {
        let j = m / 2;
        assert(0 <= j < n);
        if m % 2 == 0 {
            assert(m == 2 * j);
            assert(out@[2 * j] as int == pixel565(img@, j) / 256);
        } else {
            assert(m == 2 * j + 1);
            assert(out@[2 * j] as int == pixel565(img@, j) / 256);
        }
    }
    assert(out@ =~= rgb565_of(img@));
    out
}

/// Converts a big-endian RGB565 buffer back to RGB888, three bytes per pixel.
pub fn rgb565_be_to_rgb888(data: &[u8], width: usize, height: usize) -> (out: Vec<u8>)
    requires
        data@.len() % 2 == 0,
    ensures
        out@.len() == data@.len() / 2 * 3,
        forall|i: int|
            0 <= i < data@.len() / 2 ==> {
                let p = data@[2 * i] as int * 256 + data@[2 * i + 1] as int;
                &&& #[trigger] out@[3 * i] as int == expand5(p as int / 2048)
                &&& out@[3 * i + 1] as int == expand6((p as int / 32) % 64)
                &&& out@[3 * i + 2] as int == expand5(p as int % 32)
            },
{
    let n: usize = data.len() / 2;
    let mut out: Vec<u8> = Vec::new();
    let mut i: usize = 0;
    let mut k: usize = 0;
    while i < n
        invariant
            n == data@.len() / 2,
            data@.len() % 2 == 0,
            i <= n,
            k == 2 * i,
            out@.len() == 3 * i,
            forall|j: int|
                0 <= j < i ==> {
                    let p = data@[2 * j] as int * 256 + data@[2 * j + 1] as int;
                    &&& #[trigger] out@[3 * j] as int == expand5(p as int / 2048)
                    &&& out@[3 * j + 1] as int == expand6((p as int / 32) % 64)
                    &&& out@[3 * j + 2] as int == expand5(p as int % 32)
                },
        decreases n - i,
    {
        let hi: u8 = data[k];
        let lo: u8 = data[k + 1];
        let p: u16 = ((hi as u16) << 8) | (lo as u16);
        assert(p == hi * 256 + lo) by (bit_vector)
            requires
                p == ((hi as u16) << 8) | (lo as u16),
        ;
        let c = rgb565_to_rgb(p);
        let ghost before = out@;
        out.push(c.0);
        out.push(c.1);
        out.push(c.2);
        proof {
            let q = data@[2 * i as int] as int * 256 + data@[2 * i as int + 1] as int;
            assert(q == p as int);
            assert(out@ == before.push(c.0).push(c.1).push(c.2));
            assert forall|j: int| 0 <= j < i + 1 implies {
                let p = data@[2 * j] as int * 256 + data@[2 * j + 1] as int;
                &&& #[trigger] out@[3 * j] as int == expand5(p as int / 2048)
                &&& out@[3 * j + 1] as int == expand6((p as int / 32) % 64)
                &&& out@[3 * j + 2] as int == expand5(p as int % 32)
            } by {
                if j < i {
                    assert(out@[3 * j] == before[3 * j]);
                    assert(out@[3 * j + 1] == before[3 * j + 1]);
                    assert(out@[3 * j + 2] == before[3 * j + 2]);
                } else {
                    assert(j == i);
                    assert(out@[3 * j] == c.0);
                    assert(out@[3 * j + 1] == c.1);
                    assert(out@[3 * j + 2] == c.2);
                }
            }
        }
        i = i + 1;
        k = k + 2;
    }
    out
}

/// The three fields of a packed pixel are the three quantized channels, so
/// `rgb565_to_rgb(rgb_to_rgb565(r, g, b))` widens each quantized channel.
pub proof fn lemma_pack_fields(r: u8, g: u8, b: u8)
    ensures
        pack565(r, g, b) / 2048 == quantize5(r),
        (pack565(r, g, b) / 32) % 64 == quantize6(g),
        pack565(r, g, b) % 32 == quantize5(b),
        pack565(r, g, b) < 0x1_0000,
{
    assert(0 <= quantize5(r) < 32 && 0 <= quantize6(g) < 64 && 0 <= quantize5(b) < 32);
}

/// Quantizing an 8-bit channel and widening it again moves it by at most 11
/// on a 5-bit channel and at most 5 on the 6-bit channel, and never below
/// the input channel by more than 3 or 1.
pub proof fn lemma_channel_round_trip(v: u8)
    ensures
        -3 <= expand5(quantize5(v)) - v <= 11,
        -1 <= expand6(quantize6(v)) - v <= 5,
{
}

/// On a 5-bit channel the round trip stays within 7 of the input channel whenever
/// the bits replicated into the low end (`q / 4`) do not exceed `3 + r % 8`,
/// `r` being the rounded channel.
pub proof fn lemma_round_trip5_within_step(v: u8)
    requires
        quantize5(v) / 4 <= 3 + rounded(v, 4) % 8,
    ensures
        abs_diff(expand5(quantize5(v)), v as int) <= 7,
{
}

/// On the 6-bit channel the round trip stays within 3 of the input channel whenever
/// the bits replicated into the low end (`q / 16`) do not exceed `1 + r % 4`,
/// `r` being the rounded channel.
pub proof fn lemma_round_trip6_within_step(v: u8)
    requires
        quantize6(v) / 16 <= 1 + rounded(v, 2) % 4,
    ensures
        abs_diff(expand6(quantize6(v)), v as int) <= 3,
{
}

} // verus!
