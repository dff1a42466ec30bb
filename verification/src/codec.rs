//! The steganographic codec itself: turning the payload (header plus secret)
//! into two-bit groups, writing them over the least-significant bits of the
//! carrier's non-alpha channels in coordinate-stream order, and reading them
//! back out.

use crate::error::{Error, ErrorContext, ErrorType};
use crate::geometry::{
    channel_offset, channel_offset_at, coord_channel, lemma_channel_offset, lemma_stream_coords,
    lemma_stream_pos_inverse, num_channels, stream_pos,
};
use crate::grid::{fits, spec_available_space, total_payload_bytes, PixelGrid};
use crate::header::{header_bytes, header_bytes_of, header_value_of};
use vstd::arithmetic::div_mod::{lemma_fundamental_div_mod, lemma_mod_bound};
use vstd::prelude::*;

verus! {

/// The payload bitstream laid over the carrier: the eight header bytes
/// announcing the secret's length, then the secret itself.
pub open spec fn payload_bytes(secret: Seq<u8>) -> Seq<u8>
    recommends
        secret.len() <= u64::MAX,
{
    header_bytes_of(secret.len() as u64) + secret
}

/// Two-bit group `j` (0 = most significant pair) of byte `b`.
pub open spec fn two_bits(b: u8, j: int) -> u8 {
    (b >> ((6 - 2 * j) as u8)) & 3
}

/// The `i`-th two-bit group of a byte stream, four groups per byte,
/// most-significant pair first.
pub open spec fn payload_group(p: Seq<u8>, i: int) -> u8 {
    two_bits(p[i / 4], i % 4)
}

/// The carrier buffer after the first `k` two-bit groups of payload `p` have
/// been written over the least-significant bits of the channels that the
/// first `k` coordinate-stream entries visit; all other bytes keep their
/// original value.
pub open spec fn encoded_upto(data: Seq<u8>, width: int, height: int, p: Seq<u8>, k: int) -> Seq<
    u8,
> {
    Seq::new(
        data.len(),
        |off: int|
            if off % 4 != 3 && stream_pos(width, height, off) < k {
                (data[off] & 0xfc) | payload_group(p, stream_pos(width, height, off))
            } else {
                data[off]
            },
    )
}

/// The carrier buffer after the whole payload `p` has been encoded into it.
pub open spec fn encoded_data(data: Seq<u8>, width: int, height: int, p: Seq<u8>) -> Seq<u8> {
    encoded_upto(data, width, height, p, 4 * (p.len() as int))
}

/// The two payload bits that stream entry `i` carries in a buffer.
pub open spec fn channel_bits(data: Seq<u8>, width: int, height: int, i: int) -> u8 {
    data[channel_offset(width, height, i)] & 3
}

/// Byte `j` of the stream a decoder reads off a buffer: the two-bit groups of
/// stream entries `4 * j .. 4 * j + 4`, most-significant pair first.
pub open spec fn extracted_byte(data: Seq<u8>, width: int, height: int, j: int) -> u8 {
    (channel_bits(data, width, height, 4 * j) << 6u8) | (channel_bits(data, width, height, 4 * j + 1)
        << 4u8) | (channel_bits(data, width, height, 4 * j + 2) << 2u8) | channel_bits(
        data,
        width,
        height,
        4 * j + 3,
    )
}

/// The payload length a decoder reads off a buffer's first eight bytes.
pub open spec fn extracted_header_value(data: Seq<u8>, width: int, height: int) -> u64 {
    header_value_of(Seq::new(8, |j: int| extracted_byte(data, width, height, j)))
}

/// The secret bytes a decoder reads off a buffer, after the header.
pub open spec fn decoded_bytes(data: Seq<u8>, width: int, height: int) -> Seq<u8> {
    Seq::new(
        extracted_header_value(data, width, height) as nat,
        |j: int| extracted_byte(data, width, height, 8 + j),
    )
}

/// Exactly what decoding a carrier buffer yields: the secret bytes the header
/// announces, or which way the carrier is corrupted.
pub open spec fn decode_result(width: int, height: int, data: Seq<u8>) -> Result<
    Seq<u8>,
    crate::error::CorruptionType,
> {
    if total_payload_bytes(width, height) < 8 {
        Err(crate::error::CorruptionType::FileTooSmallForHeader)
    } else if extracted_header_value(data, width, height) > total_payload_bytes(width, height)
        - 8 {
        Err(crate::error::CorruptionType::IncorrectHeader)
    } else {
        Ok(decoded_bytes(data, width, height))
    }
}

/// Every two-bit group of a byte is at most 3.
pub proof fn lemma_payload_group_bound(p: Seq<u8>, i: int)
    ensures
        payload_group(p, i) < 4,
{
    let b = p[i / 4];
    let sh = (6 - 2 * (i % 4)) as u8;
    assert((b >> sh) & 3 < 4) by (bit_vector);
}

/// Splitting a byte into its four two-bit groups and reassembling them,
/// most-significant pair first, gives the byte back.
pub proof fn lemma_byte_from_groups(b: u8)
    ensures
        (two_bits(b, 0) << 6u8) | (two_bits(b, 1) << 4u8) | (two_bits(b, 2) << 2u8) | two_bits(
            b,
            3,
        ) == b,
{
    assert(two_bits(b, 0) == (b >> 6u8) & 3);
    assert(two_bits(b, 1) == (b >> 4u8) & 3);
    assert(two_bits(b, 2) == (b >> 2u8) & 3);
    assert(two_bits(b, 3) == (b >> 0u8) & 3);
    assert((((b >> 6u8) & 3) << 6u8) | (((b >> 4u8) & 3) << 4u8) | (((b >> 2u8) & 3) << 2u8) | ((b
        >> 0u8) & 3) == b) by (bit_vector);
}

/// Overwriting the low two bits of a channel stores the group exactly: the
/// written group reads back, the upper six bits survive, and the channel
/// value moves by at most three.
pub proof fn lemma_masked_write(v: u8, g: u8)
    requires
        g < 4,
    ensures
        ((v & 0xfc) | g) & 3 == g,
        ((v & 0xfc) | g) >> 2u8 == v >> 2u8,
        -3 <= ((v & 0xfc) | g) - v <= 3,
{
    assert(((v & 0xfc) | g) & 3 == g && ((v & 0xfc) | g) >> 2u8 == v >> 2u8 && -3 <= ((v & 0xfc)
        | g) - v <= 3) by (bit_vector)
        requires
            g < 4,
    ;
}

/// After encoding, the channel of stream entry `i` carries exactly payload
/// group `i`.
pub proof fn lemma_group_recovered(data: Seq<u8>, width: int, height: int, p: Seq<u8>, i: int)
    requires
        0 <= width,
        0 <= height,
        data.len() == width * height * 4,
        4 * p.len() <= num_channels(width, height),
        0 <= i < 4 * p.len(),
    ensures
        channel_bits(encoded_data(data, width, height, p), width, height, i) == payload_group(p, i),
{
    lemma_stream_coords(width, height, i);
    lemma_channel_offset(width, height, i);
    lemma_payload_group_bound(p, i);
    let off = channel_offset(width, height, i);
    let enc = encoded_data(data, width, height, p);
    assert(enc[off] == (data[off] & 0xfc) | payload_group(p, i));
    lemma_masked_write(data[off], payload_group(p, i));
}

/// After encoding, byte `j` of the decoder's byte stream is byte `j` of the
/// payload.
pub proof fn lemma_byte_recovered(data: Seq<u8>, width: int, height: int, p: Seq<u8>, j: int)
    requires
        0 <= width,
        0 <= height,
        data.len() == width * height * 4,
        4 * p.len() <= num_channels(width, height),
        0 <= j < p.len(),
    ensures
        extracted_byte(encoded_data(data, width, height, p), width, height, j) == p[j],
{
    let enc = encoded_data(data, width, height, p);
    assert forall|r: int| 0 <= r < 4 implies channel_bits(enc, width, height, 4 * j + r)
        == two_bits(p[j], r) by {
        lemma_group_recovered(data, width, height, p, 4 * j + r);
        vstd::arithmetic::div_mod::lemma_fundamental_div_mod_converse(4 * j + r, 4, j, r);
        assert(payload_group(p, 4 * j + r) == two_bits(p[j], r));
    }
    lemma_byte_from_groups(p[j]);
    assert(channel_bits(enc, width, height, 4 * j + 0) == two_bits(p[j], 0));
    assert(channel_bits(enc, width, height, 4 * j + 1) == two_bits(p[j], 1));
    assert(channel_bits(enc, width, height, 4 * j + 2) == two_bits(p[j], 2));
    assert(channel_bits(enc, width, height, 4 * j + 3) == two_bits(p[j], 3));
    assert(4 * j + 0 == 4 * j);
}

/// Writing one more two-bit group changes exactly the one buffer byte that
/// the `k`-th coordinate-stream entry owns.
proof fn lemma_encode_step(data: Seq<u8>, width: int, height: int, p: Seq<u8>, k: int, nv: u8)
    requires
        data.len() == width * height * 4,
        0 <= width,
        0 <= height,
        0 <= k < num_channels(width, height),
        nv == (data[channel_offset(width, height, k)] & 0xfc) | payload_group(p, k),
    ensures
        encoded_upto(data, width, height, p, k + 1) == encoded_upto(data, width, height, p, k)
            .update(channel_offset(width, height, k), nv),
{
    lemma_stream_coords(width, height, k);
    lemma_channel_offset(width, height, k);
    let off = channel_offset(width, height, k);
    let lhs = encoded_upto(data, width, height, p, k + 1);
    let rhs = encoded_upto(data, width, height, p, k).update(off, nv);
    assert forall|o: int| 0 <= o < data.len() implies lhs[o] == rhs[o] by {
        if o == off {
            assert(stream_pos(width, height, o) == k);
            assert(o % 4 == coord_channel(k));
        } else if o % 4 != 3 {
            lemma_stream_pos_inverse(width, height, o);
            assert(stream_pos(width, height, o) != k);
        }
    }
    assert(lhs =~= rhs);
}

/// Encodes the payload of the given secret into the grid: every byte of
/// header-then-secret is split into four two-bit groups, and group `i`
/// replaces the low bits of the channel that coordinate-stream entry `i`
/// visits. Channels past the payload, and every alpha channel, are left
/// unchanged.
///
/// Fails, leaving the grid untouched, when the secret does not fit.
pub fn encode_grid(grid: &mut PixelGrid, secret: &Vec<u8>) -> (r: Result<(), Error>)
    requires
        old(grid).well_formed(),
    ensures
        final(grid).well_formed(),
        final(grid).width == old(grid).width,
        final(grid).height == old(grid).height,
        ({
            let w = old(grid).width as int;
            let h = old(grid).height as int;
            if fits(w, h, secret@.len() as int) {
                &&& r is Ok
                &&& final(grid).data@ == encoded_data(
                    old(grid).data@,
                    w,
                    h,
                    payload_bytes(secret@),
                )
            } else {
                &&& (r matches Err(e) ==> {
                    &&& e.error_type matches ErrorType::BaseFileNotBigEnough {
                        available_size,
                        secret_file_size,
                    }
                    &&& available_size as int == spec_available_space(w, h)
                    &&& secret_file_size == secret@.len()
                    &&& e.contexts@ == seq![ErrorContext::BaseFile]
                })
                &&& r is Err
                &&& *final(grid) == *old(grid)
            }
        }),
{
    let ghost w = grid.width as int;
    let ghost h = grid.height as int;
    proof {
        assert(0 <= w * h * 4) by (nonlinear_arith)
            requires
                0 <= w,
                0 <= h,
        ;
    }
    let pixels: usize = grid.data.len() / 4;
    proof {
        vstd::arithmetic::div_mod::lemma_fundamental_div_mod_converse(
            grid.data@.len() as int,
            4,
            w * h,
            0,
        );
        assert(pixels as int == w * h);
        assert(w * h * 3 <= w * h * 4) by (nonlinear_arith)
            requires
                0 <= w,
                0 <= h,
        ;
    }
    let channels: usize = pixels * 3;
    let total: usize = channels / 4;
    proof {
        assert(channels as int == num_channels(w, h));
        assert(total as int == total_payload_bytes(w, h));
    }
    if total < 8 || secret.len() > total - 8 {
        let available_size: u64 = if total < 8 {
            0
        } else {
            (total - 8) as u64
        };
        return Err(
            Error::with_context(
                ErrorContext::BaseFile,
                ErrorType::BaseFileNotBigEnough {
                    available_size,
                    secret_file_size: secret.len() as u64,
                },
            ),
        );
    }
    let ghost d0 = grid.data@;
    let ghost p = payload_bytes(secret@);
    let header_v = header_bytes(secret.len() as u64);
    proof {
        assert(p.len() == 8 + secret@.len());
        lemma_fundamental_div_mod(num_channels(w, h), 4);
        lemma_mod_bound(num_channels(w, h), 4);
        assert(4 * total_payload_bytes(w, h) <= num_channels(w, h));
        assert(4 * (8 + secret@.len()) <= num_channels(w, h));
        assert(num_channels(w, h) <= d0.len());
    }
    let groups: usize = 4 * (8 + secret.len());
    let width = grid.width;
    let height = grid.height;
    for i in 0..groups
        invariant
            grid.width == old(grid).width,
            grid.height == old(grid).height,
            width == grid.width,
            height == grid.height,
            w == width as int,
            h == height as int,
            d0 == old(grid).data@,
            d0.len() == w * h * 4,
            w * h * 4 <= usize::MAX as int,
            p == payload_bytes(secret@),
            p.len() == 8 + secret@.len(),
            secret@.len() <= u64::MAX,
            groups == 4 * p.len(),
            groups <= num_channels(w, h),
            num_channels(w, h) <= d0.len(),
            header_v@ == header_bytes_of(secret@.len() as u64),
            grid.data@.len() == d0.len(),
            grid.data@ == encoded_upto(d0, w, h, p, i as int),
    {
        let ghost k = i as int;
        let j = i / 4;
        let rem = i % 4;
        proof {
            lemma_fundamental_div_mod(k, 4);
            lemma_mod_bound(k, 4);
            assert(j as int == k / 4);
            assert(0 <= k / 4 < p.len());
        }
        let b = if j < 8 {
            header_v[j]
        } else {
            secret[j - 8]
        };
        proof {
            if j < 8 {
                assert(p[k / 4] == header_bytes_of(secret@.len() as u64)[k / 4]);
            } else {
                assert(p[k / 4] == secret@[k / 4 - 8]);
            }
            assert(b == p[k / 4]);
        }
        let g = if rem == 0 {
            (b >> 6u8) & 3
        } else if rem == 1 {
            (b >> 4u8) & 3
        } else if rem == 2 {
            (b >> 2u8) & 3
        } else {
            b & 3
        };
        proof {
            if rem == 3 {
                assert((b >> 0u8) & 3 == b & 3) by (bit_vector);
            }
            assert(g == payload_group(p, k));
        }
        let off = channel_offset_at(width, height, i as u64);
        proof {
            lemma_stream_coords(w, h, k);
            lemma_channel_offset(w, h, k);
            assert(off < grid.data@.len());
            assert(grid.data@[off as int] == d0[off as int]);
        }
        let v = grid.data[off];
        let nv = (v & 0xfc) | g;
        grid.data[off] = nv;
        proof {
            lemma_encode_step(d0, w, h, p, k, nv);
            assert(grid.data@ == encoded_upto(d0, w, h, p, k + 1));
        }
    }
    proof {
        assert(grid.data@ == encoded_data(d0, w, h, p));
    }
    Ok(())
}

/// Reads byte `j` of the decoder's byte stream off the grid: the low two bits
/// of the four channels that stream entries `4 * j .. 4 * j + 4` visit.
fn extract_byte_at(grid: &PixelGrid, j: usize) -> (b: u8)
    requires
        grid.well_formed(),
        4 * (j as int) + 3 < num_channels(grid.width as int, grid.height as int),
    ensures
        b == extracted_byte(grid.data@, grid.width as int, grid.height as int, j as int),
{
    let ghost w = grid.width as int;
    let ghost h = grid.height as int;
    let n = grid.data.len();
    proof {
        assert(num_channels(w, h) <= w * h * 4) by (nonlinear_arith)
            requires
                0 <= w,
                0 <= h,
        ;
    }
    let i0: u64 = 4 * (j as u64);
    let off0 = channel_offset_at(grid.width, grid.height, i0);
    let off1 = channel_offset_at(grid.width, grid.height, i0 + 1);
    let off2 = channel_offset_at(grid.width, grid.height, i0 + 2);
    let off3 = channel_offset_at(grid.width, grid.height, i0 + 3);
    proof {
        lemma_channel_offset(w, h, 4 * (j as int));
        lemma_channel_offset(w, h, 4 * (j as int) + 1);
        lemma_channel_offset(w, h, 4 * (j as int) + 2);
        lemma_channel_offset(w, h, 4 * (j as int) + 3);
    }
    let v0 = grid.data[off0] & 3;
    let v1 = grid.data[off1] & 3;
    let v2 = grid.data[off2] & 3;
    let v3 = grid.data[off3] & 3;
    (v0 << 6u8) | (v1 << 4u8) | (v2 << 2u8) | v3
}

/// Decodes the byte stream hidden in the grid: reads the eight-byte header
/// off the first thirty-two channels, then emits as many secret bytes as the
/// header announces.
///
/// Fails when the grid has too few channels to hold even a header, or when
/// the header announces more bytes than the grid holds.
pub fn decode_grid(grid: &PixelGrid) -> (r: Result<Vec<u8>, Error>)
    requires
        grid.well_formed(),
    ensures
        ({
            let w = grid.width as int;
            let h = grid.height as int;
            match decode_result(w, h, grid.data@) {
                Ok(s) => r matches Ok(v) && v@ == s,
                Err(ct) => r matches Err(e) && e.error_type == ErrorType::CorruptedFile(ct)
                    && e.contexts@ == seq![ErrorContext::EncodedFile],
            }
        }),
{
    let ghost w = grid.width as int;
    let ghost h = grid.height as int;
    let ghost d = grid.data@;
    proof {
        assert(0 <= w * h * 4 && w * h * 3 <= w * h * 4) by (nonlinear_arith)
            requires
                0 <= w,
                0 <= h,
        ;
    }
    let pixels: usize = grid.data.len() / 4;
    proof {
        vstd::arithmetic::div_mod::lemma_fundamental_div_mod_converse(
            grid.data@.len() as int,
            4,
            w * h,
            0,
        );
        assert(pixels as int == w * h);
    }
    let channels: usize = pixels * 3;
    let total: usize = channels / 4;
    proof {
        assert(channels as int == num_channels(w, h));
        assert(total as int == total_payload_bytes(w, h));
        lemma_fundamental_div_mod(num_channels(w, h), 4);
        lemma_mod_bound(num_channels(w, h), 4);
        assert(4 * total_payload_bytes(w, h) <= num_channels(w, h));
    }
    if total < 8 {
        return Err(
            Error::with_context(
                ErrorContext::EncodedFile,
                ErrorType::CorruptedFile(crate::error::CorruptionType::FileTooSmallForHeader),
            ),
        );
    }
    let mut header_v: Vec<u8> = Vec::new();
    for j in 0..8usize
        invariant
            grid.well_formed(),
            w == grid.width as int,
            h == grid.height as int,
            d == grid.data@,
            8 <= total,
            total as int == total_payload_bytes(w, h),
            4 * total_payload_bytes(w, h) <= num_channels(w, h),
            header_v@.len() == j,
            forall|t: int| 0 <= t < j ==> header_v@[t] == extracted_byte(d, w, h, t),
    {
        let b = extract_byte_at(grid, j);
        header_v.push(b);
    }
    proof {
        assert(Seq::new(8, |t: int| extracted_byte(d, w, h, t)) =~= header_v@);
    }
    let file_size = crate::header::header_value(&header_v);
    proof {
        assert(file_size == extracted_header_value(d, w, h));
    }
    if file_size > (total - 8) as u64 {
        return Err(
            Error::with_context(
                ErrorContext::EncodedFile,
                ErrorType::CorruptedFile(crate::error::CorruptionType::IncorrectHeader),
            ),
        );
    }
    let count = file_size as usize;
    let mut out: Vec<u8> = Vec::new();
    for j in 0..count
        invariant
            grid.well_formed(),
            w == grid.width as int,
            h == grid.height as int,
            d == grid.data@,
            8 <= total,
            total as int == total_payload_bytes(w, h),
            4 * total_payload_bytes(w, h) <= num_channels(w, h),
            count + 8 <= total,
            out@.len() == j,
            forall|t: int| 0 <= t < j ==> out@[t] == extracted_byte(d, w, h, 8 + t),
    {
        let b = extract_byte_at(grid, 8 + j);
        out.push(b);
    }
    proof {
        assert(out@ =~= decoded_bytes(d, w, h));
    }
    Ok(out)
}

} // verus!
