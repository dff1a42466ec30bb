//! The in-memory carrier: a grid of RGBA pixels held as a flat row-major byte
//! buffer, and the sizing arithmetic that decides how many secret bytes fit.

use crate::geometry::num_channels;
use vstd::arithmetic::div_mod::{
    lemma_fundamental_div_mod, lemma_fundamental_div_mod_converse, lemma_mod_bound,
};
use vstd::prelude::*;

verus! {

/// An in-memory grid of RGBA pixels with 8-bit channels.
///
/// The buffer is row-major with four bytes per pixel: channel `c` of the pixel
/// at `(x, y)` lives at offset `(y * width + x) * 4 + c`, and channel 3 is the
/// alpha channel.
pub struct PixelGrid {
    pub width: u32,
    pub height: u32,
    pub data: Vec<u8>,
}

impl PixelGrid {
    /// The buffer holds exactly four bytes for every pixel of the grid.
    pub open spec fn well_formed(self) -> bool {
        self.data@.len() == self.width * self.height * 4
    }
}

/// How many whole payload bytes the carrier's channels hold, header included:
/// each of the `width * height * 3` non-alpha channels carries two bits.
pub open spec fn total_payload_bytes(width: int, height: int) -> int {
    num_channels(width, height) / 4
}

/// The number of bytes available to hide a secret file in a carrier of the
/// given dimensions: the whole bytes its channels hold, less the eight header
/// bytes; zero when the carrier cannot hold even the header.
pub open spec fn spec_available_space(width: int, height: int) -> int {
    if total_payload_bytes(width, height) >= 8 {
        total_payload_bytes(width, height) - 8
    } else {
        0
    }
}

/// Whether a secret of `len` bytes fits in a carrier of the given dimensions:
/// the header and the secret must both fit in whole bytes of the channels.
pub open spec fn fits(width: int, height: int, len: int) -> bool {
    total_payload_bytes(width, height) >= 8 && len <= total_payload_bytes(width, height) - 8
}

/// The sizing arithmetic agrees with the stated formula
/// `(width * height * 6) / 8`: six payload bits per pixel make whole bytes.
pub proof fn lemma_total_payload_bytes_formula(width: int, height: int)
    requires
        0 <= width,
        0 <= height,
    ensures
        total_payload_bytes(width, height) == (width * height * 6) / 8,
{
    let m = width * height;
    assert(0 <= m * 3 && m * 6 == 2 * (m * 3)) by (nonlinear_arith)
        requires
            0 <= width,
            0 <= height,
            m == width * height,
    ;
    lemma_fundamental_div_mod(m * 3, 4);
    lemma_mod_bound(m * 3, 4);
    let q = (m * 3) / 4;
    let r = (m * 3) % 4;
    assert(m * 6 == q * 8 + 2 * r) by (nonlinear_arith)
        requires
            m * 3 == 4 * q + r,
            m * 6 == 2 * (m * 3),
    ;
    lemma_fundamental_div_mod_converse(m * 6, 8, q, 2 * r);
}

/// Computes how many bytes are available to hide a secret file in a carrier
/// image of the given dimensions.
pub fn available_space(width: u32, height: u32) -> (r: u64)
    ensures
        r == spec_available_space(width as int, height as int),
{
    proof {
        assert((width as int) * (height as int) <= 0xffff_ffff * 0xffff_ffff) by (nonlinear_arith)
            requires
                0 <= width as int <= 0xffff_ffff,
                0 <= height as int <= 0xffff_ffff,
        ;
    }
    let pixels: u64 = (width as u64) * (height as u64);
    let channels: u128 = (pixels as u128) * 3;
    let total: u128 = channels / 4;
    proof {
        assert(total <= 0xbfff_fffe_8000_0000) by (nonlinear_arith)
            requires
                channels == (pixels as u128) * 3,
                total == channels / 4,
                pixels <= 0xffff_fffe_0000_0001u64,
        ;
    }
    if total < 8 {
        0
    } else {
        (total - 8) as u64
    }
}

/// Decides whether a secret of `len` bytes fits in a carrier image of the
/// given dimensions.
pub fn fits_within(width: u32, height: u32, len: u64) -> (r: bool)
    ensures
        r == fits(width as int, height as int, len as int),
{
    proof {
        assert((width as int) * (height as int) <= 0xffff_ffff * 0xffff_ffff) by (nonlinear_arith)
            requires
                0 <= width as int <= 0xffff_ffff,
                0 <= height as int <= 0xffff_ffff,
        ;
    }
    let pixels: u64 = (width as u64) * (height as u64);
    let channels: u128 = (pixels as u128) * 3;
    let total: u128 = channels / 4;
    total >= 8 && (len as u128) <= total - 8
}

} // verus!
