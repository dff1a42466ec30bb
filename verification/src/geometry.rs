//! Bit geometry of a carrier image: the constants of the scheme and the
//! deterministic stream of `(x, y, channel)` coordinates that both the encoder
//! and the decoder walk, skipping the alpha channel.
//!
//! The stream visits `x` outermost, then `y`, then the three non-alpha
//! channels, so entry `i` of the stream is
//! `(i / (3 * height), (i % (3 * height)) / 3, i % 3)`.

use vstd::arithmetic::div_mod::{
    lemma_fundamental_div_mod, lemma_fundamental_div_mod_converse, lemma_mod_bound,
};
use vstd::prelude::*;

verus! {

/// The number of channels in a pixel (RGBA).
pub const CHANNELS_PER_PIXEL: u8 = 4;

/// The number of channels in a pixel that aren't an alpha channel.
pub const NON_ALPHA_CHANNELS: u8 = 3;

/// The number of bits we can store per pixel in an image.
///
/// Every channel except for the alpha channel provides two bits.
pub const BITS_PER_PIXEL: u64 = 6;

/// Mask for the last two bits of a byte.
pub const TWO_BIT_MASK: u8 = 0b0000_0011;

/// How many payload-carrying (non-alpha) channels a carrier of the given
/// dimensions has; this is also the length of the coordinate stream.
pub open spec fn num_channels(width: int, height: int) -> int {
    width * height * 3
}

/// The x coordinate of the `i`-th entry of the coordinate stream.
pub open spec fn coord_x(height: int, i: int) -> int {
    i / (3 * height)
}

/// The y coordinate of the `i`-th entry of the coordinate stream.
pub open spec fn coord_y(height: int, i: int) -> int {
    (i % (3 * height)) / 3
}

/// The channel index (0 = red, 1 = green, 2 = blue) of the `i`-th stream entry.
pub open spec fn coord_channel(i: int) -> int {
    i % 3
}

/// Where the `i`-th stream entry lands in a row-major RGBA byte buffer
/// (four bytes per pixel, rows of `width` pixels).
pub open spec fn channel_offset(width: int, height: int, i: int) -> int {
    (coord_y(height, i) * width + coord_x(height, i)) * 4 + coord_channel(i)
}

/// The stream position that owns buffer offset `off`; the inverse of
/// `channel_offset` on non-alpha offsets.
pub open spec fn stream_pos(width: int, height: int, off: int) -> int {
    ((off / 4) % width) * (3 * height) + ((off / 4) / width) * 3 + off % 4
}

/// Entry `i` of the coordinate stream is a coordinate of the image, and the
/// stream order decomposes `i` as `x * 3 * height + y * 3 + channel`.
pub proof fn lemma_stream_coords(width: int, height: int, i: int)
    requires
        0 <= width,
        0 <= height,
        0 <= i < num_channels(width, height),
    ensures
        0 < width,
        0 < height,
        0 <= coord_x(height, i) < width,
        0 <= coord_y(height, i) < height,
        0 <= coord_channel(i) < 3,
        i == coord_x(height, i) * (3 * height) + coord_y(height, i) * 3 + coord_channel(i),
{
    assert(0 < width && 0 < height) by (nonlinear_arith)
        requires
            0 <= i < width * height * 3,
            0 <= width,
            0 <= height,
    ;
    let d = 3 * height;
    lemma_fundamental_div_mod(i, d);
    lemma_mod_bound(i, d);
    let x = coord_x(height, i);
    let r = i % d;
    // i == d * x + r with 0 <= r < d
    assert(0 <= x < width) by (nonlinear_arith)
        requires
            i == d * x + r,
            0 <= r < d,
            d == 3 * height,
            0 <= i < width * height * 3,
            0 < width,
            0 < height,
    ;
    lemma_fundamental_div_mod(r, 3);
    lemma_mod_bound(r, 3);
    let y = coord_y(height, i);
    let c = r % 3;
    assert(0 <= y < height) by (nonlinear_arith)
        requires
            r == 3 * y + c,
            0 <= c < 3,
            0 <= r < d,
            d == 3 * height,
            0 < height,
    ;
    // The channel of i equals the channel of r, because d * x is a multiple of 3.
    assert(i % 3 == c) by {
        assert(i == (x * height + y) * 3 + c) by (nonlinear_arith)
            requires
                i == d * x + r,
                r == 3 * y + c,
                d == 3 * height,
        ;
        lemma_fundamental_div_mod_converse(i, 3, x * height + y, c);
    }
    assert(i == x * (3 * height) + y * 3 + c) by (nonlinear_arith)
        requires
            i == d * x + r,
            r == 3 * y + c,
            d == 3 * height,
    ;
}

/// The buffer offset of stream entry `i` is a non-alpha byte of the buffer,
/// and mapping it back through `stream_pos` recovers `i`.
pub proof fn lemma_channel_offset(width: int, height: int, i: int)
    requires
        0 <= width,
        0 <= height,
        0 <= i < num_channels(width, height),
    ensures
        0 <= channel_offset(width, height, i) < width * height * 4,
        channel_offset(width, height, i) % 4 == coord_channel(i),
        stream_pos(width, height, channel_offset(width, height, i)) == i,
{
    lemma_stream_coords(width, height, i);
    let x = coord_x(height, i);
    let y = coord_y(height, i);
    let c = coord_channel(i);
    let pix = y * width + x;
    let off = channel_offset(width, height, i);
    assert(0 <= pix < width * height) by (nonlinear_arith)
        requires
            0 <= x < width,
            0 <= y < height,
            pix == y * width + x,
    ;
    assert(0 <= off < width * height * 4) by (nonlinear_arith)
        requires
            0 <= pix < width * height,
            0 <= c < 3,
            off == pix * 4 + c,
    ;
    lemma_fundamental_div_mod_converse(off, 4, pix, c);
    lemma_fundamental_div_mod_converse(pix, width, y, x);
    assert(stream_pos(width, height, off) == x * (3 * height) + y * 3 + c);
}

/// Every non-alpha buffer offset is owned by exactly one stream entry:
/// `stream_pos` lands in the stream's range and `channel_offset` undoes it.
pub proof fn lemma_stream_pos_inverse(width: int, height: int, off: int)
    requires
        0 < width,
        0 < height,
        0 <= off < width * height * 4,
        off % 4 != 3,
    ensures
        0 <= stream_pos(width, height, off) < num_channels(width, height),
        channel_offset(width, height, stream_pos(width, height, off)) == off,
{
    let pix = off / 4;
    let c = off % 4;
    lemma_fundamental_div_mod(off, 4);
    lemma_mod_bound(off, 4);
    assert(0 <= pix < width * height) by (nonlinear_arith)
        requires
            off == 4 * pix + c,
            0 <= c < 4,
            0 <= off < width * height * 4,
            0 < width,
            0 < height,
    ;
    lemma_fundamental_div_mod(pix, width);
    lemma_mod_bound(pix, width);
    let x = pix % width;
    let y = pix / width;
    assert(0 <= y < height) by (nonlinear_arith)
        requires
            pix == width * y + x,
            0 <= x < width,
            0 <= pix < width * height,
            0 < width,
    ;
    let i = stream_pos(width, height, off);
    assert(i == x * (3 * height) + y * 3 + c);
    assert(0 <= i < width * height * 3) by (nonlinear_arith)
        requires
            i == x * (3 * height) + y * 3 + c,
            0 <= x < width,
            0 <= y < height,
            0 <= c < 3,
            0 < width,
            0 < height,
    ;
    // Now show the spec coordinates of i are exactly (x, y, c).
    assert(i == x * (3 * height) + (y * 3 + c)) by (nonlinear_arith)
        requires
            i == x * (3 * height) + y * 3 + c,
    ;
    assert(0 <= y * 3 + c < 3 * height) by (nonlinear_arith)
        requires
            0 <= y < height,
            0 <= c < 3,
    ;
    lemma_fundamental_div_mod_converse(i, 3 * height, x, y * 3 + c);
    lemma_fundamental_div_mod_converse(y * 3 + c, 3, y, c);
    assert(coord_x(height, i) == x);
    assert(coord_y(height, i) == y);
    assert(i % 3 == c) by {
        assert(i == (x * height + y) * 3 + c) by (nonlinear_arith)
            requires
                i == x * (3 * height) + y * 3 + c,
        ;
        lemma_fundamental_div_mod_converse(i, 3, x * height + y, c);
    }
    assert(channel_offset(width, height, i) == (y * width + x) * 4 + c);
    assert((y * width + x) * 4 + c == off) by (nonlinear_arith)
        requires
            off == 4 * pix + c,
            pix == width * y + x,
    ;
}

/// Computes the buffer offset of stream entry `i` for a buffer of
/// `width * height` RGBA pixels.
pub(crate) fn channel_offset_at(width: u32, height: u32, i: u64) -> (off: usize)
    requires
        (i as int) < num_channels(width as int, height as int),
        (width as int) * (height as int) * 4 <= usize::MAX as int,
    ensures
        off as int == channel_offset(width as int, height as int, i as int),
{
    proof {
        lemma_stream_coords(width as int, height as int, i as int);
        lemma_channel_offset(width as int, height as int, i as int);
    }
    let per_column: u64 = 3 * (height as u64);
    let x: u64 = i / per_column;
    let y: u64 = (i % per_column) / 3;
    let c: u64 = i % 3;
    proof {
        assert((y as int) * (width as int) + (x as int) < (width as int) * (height as int))
            by (nonlinear_arith)
            requires
                0 <= (x as int) < (width as int),
                0 <= (y as int) < (height as int),
        ;
        assert(((y as int) * (width as int) + (x as int)) * 4 + 3 < (width as int) * (height as int)
            * 4) by (nonlinear_arith)
            requires
                0 <= (y as int) * (width as int) + (x as int) < (width as int) * (height as int),
        ;
    }
    let pix: u64 = y * (width as u64) + x;
    let off64: u64 = pix * 4 + c;
    off64 as usize
}

/// Walks the coordinates of an image in a deterministic order.
///
/// Entry `index` of the stream is returned as `(x, y, channel)`; `None` once
/// the stream is exhausted. The first two values are the x and y coordinate,
/// the last is which non-alpha channel is next.
pub fn coord_iter(dimensions: (u32, u32), index: u64) -> (r: Option<(u32, u32, u8)>)
    ensures
        ({
            let w = dimensions.0 as int;
            let h = dimensions.1 as int;
            if (index as int) < num_channels(w, h) {
                r == Some(
                    (
                        coord_x(h, index as int) as u32,
                        coord_y(h, index as int) as u32,
                        coord_channel(index as int) as u8,
                    ),
                )
            } else {
                r is None
            }
        }),
{
    let (width, height) = dimensions;
    proof {
        assert((width as int) * (height as int) * 3 <= 0xffff_ffff * 0xffff_ffff * 3)
            by (nonlinear_arith)
            requires
                width as int <= 0xffff_ffff,
                height as int <= 0xffff_ffff,
                0 <= width as int,
                0 <= height as int,
        ;
    }
    let total: u128 = (width as u128) * (height as u128) * 3;
    if (index as u128) >= total {
        return None;
    }
    proof {
        lemma_stream_coords(width as int, height as int, index as int);
    }
    let per_column: u64 = 3 * (height as u64);
    let x = index / per_column;
    let y = (index % per_column) / 3;
    let c = index % 3;
    Some((x as u32, y as u32, c as u8))
}

} // verus!
