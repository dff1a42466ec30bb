//! The guarantees of the codec, stated and proved once and for all: encoding
//! and decoding are exact inverses whenever the secret fits, the capacity
//! check is tight, and encoding never touches more of the carrier than the
//! two low bits of the payload's non-alpha channels.

use crate::codec::{
    decode_result, decoded_bytes, encoded_data, extracted_byte, extracted_header_value,
    lemma_byte_recovered, lemma_masked_write, lemma_payload_group_bound, payload_bytes,
    payload_group, two_bits,
};
use crate::error::CorruptionType;
use crate::geometry::{num_channels, stream_pos};
use crate::grid::{fits, spec_available_space, total_payload_bytes};
use crate::header::{header_bytes_of, header_value_of, lemma_header_round_trip};
use vstd::arithmetic::div_mod::{lemma_fundamental_div_mod, lemma_mod_bound};
use vstd::prelude::*;

verus! {

/// Round trip: for every carrier buffer and every secret that fits, decoding
/// the encoded carrier yields exactly the secret — including the empty one.
pub proof fn lemma_round_trip(data: Seq<u8>, width: int, height: int, secret: Seq<u8>)
    requires
        0 <= width,
        0 <= height,
        data.len() == width * height * 4,
        secret.len() <= u64::MAX,
        fits(width, height, secret.len() as int),
    ensures
        decode_result(width, height, encoded_data(data, width, height, payload_bytes(secret)))
            == Ok::<Seq<u8>, CorruptionType>(secret),
{
    let p = payload_bytes(secret);
    let len64 = secret.len() as u64;
    assert(p.len() == 8 + secret.len());
    lemma_fundamental_div_mod(num_channels(width, height), 4);
    lemma_mod_bound(num_channels(width, height), 4);
    assert(4 * p.len() <= num_channels(width, height));
    let enc = encoded_data(data, width, height, p);

    // The eight header bytes read back as the secret's length.
    let header_read = Seq::new(8, |j: int| extracted_byte(enc, width, height, j));
    assert forall|j: int| 0 <= j < 8 implies header_read[j] == header_bytes_of(len64)[j] by {
        lemma_byte_recovered(data, width, height, p, j);
        assert(p[j] == header_bytes_of(len64)[j]);
    }
    assert(header_read =~= header_bytes_of(len64));
    lemma_header_round_trip(len64);
    assert(extracted_header_value(enc, width, height) == len64);

    // The header passes the corruption checks, and the secret bytes follow.
    assert(total_payload_bytes(width, height) >= 8);
    assert(len64 <= total_payload_bytes(width, height) - 8);
    let out = decoded_bytes(enc, width, height);
    assert forall|j: int| 0 <= j < secret.len() implies out[j] == secret[j] by {
        lemma_byte_recovered(data, width, height, p, 8 + j);
        assert(p[8 + j] == secret[j]);
    }
    assert(out =~= secret);
}

/// Capacity boundary: a secret exactly as large as the available space still
/// round-trips, and one byte more no longer fits. (That encoding succeeds if
/// and only if the secret fits is the contract of `encode_grid`.)
pub proof fn lemma_capacity_boundary(data: Seq<u8>, width: int, height: int, secret: Seq<u8>)
    requires
        0 <= width,
        0 <= height,
        data.len() == width * height * 4,
        secret.len() <= u64::MAX,
        total_payload_bytes(width, height) >= 8,
        secret.len() == spec_available_space(width, height),
    ensures
        fits(width, height, secret.len() as int),
        !fits(width, height, secret.len() + 1 as int),
        decode_result(width, height, encoded_data(data, width, height, payload_bytes(secret)))
            == Ok::<Seq<u8>, CorruptionType>(secret),
{
    lemma_round_trip(data, width, height, secret);
}

/// Alpha preservation: encoding keeps the buffer's length and leaves every
/// alpha channel byte exactly as it was.
pub proof fn lemma_alpha_preserved(data: Seq<u8>, width: int, height: int, p: Seq<u8>)
    ensures
        encoded_data(data, width, height, p).len() == data.len(),
        forall|off: int|
            0 <= off < data.len() && off % 4 == 3 ==> encoded_data(data, width, height, p)[off]
                == data[off],
{
}

/// Non-alpha channel bound: every byte of the encoded buffer agrees with the
/// base in its upper six bits, and so differs from it by at most three.
pub proof fn lemma_channel_bound(data: Seq<u8>, width: int, height: int, p: Seq<u8>)
    ensures
        forall|off: int|
            0 <= off < data.len() ==> #[trigger] encoded_data(data, width, height, p)[off] >> 2u8
                == data[off] >> 2u8,
        forall|off: int|
            0 <= off < data.len() ==> -3 <= #[trigger] encoded_data(
                data,
                width,
                height,
                p,
            )[off] - data[off] <= 3,
{
    let enc = encoded_data(data, width, height, p);
    assert forall|off: int| 0 <= off < data.len() implies enc[off] >> 2u8 == data[off] >> 2u8 && -3
        <= enc[off] - data[off] <= 3 by {
        if off % 4 != 3 && stream_pos(width, height, off) < 4 * p.len() {
            lemma_payload_group_bound(p, stream_pos(width, height, off));
            lemma_masked_write(data[off], payload_group(p, stream_pos(width, height, off)));
        }
    }
}

} // verus!
