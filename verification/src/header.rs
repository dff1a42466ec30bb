//! The self-describing length header: the number of secret bytes, encoded as
//! a fixed eight-byte big-endian unsigned integer that precedes the secret in
//! the payload bitstream.

use vstd::prelude::*;

verus! {

/// Byte `k` (0 = most significant) of the big-endian encoding of `len`.
pub open spec fn header_byte(len: u64, k: int) -> u8 {
    ((len >> ((56 - 8 * k) as u64)) & 0xff) as u8
}

/// The eight-byte big-endian header announcing a payload of `len` bytes.
pub open spec fn header_bytes_of(len: u64) -> Seq<u8> {
    Seq::new(8, |k: int| header_byte(len, k))
}

/// The value read back from eight header bytes, big-endian.
pub open spec fn header_value_of(bytes: Seq<u8>) -> u64
    recommends
        bytes.len() == 8,
{
    ((bytes[0] as u64) << 56u64) | ((bytes[1] as u64) << 48u64) | ((bytes[2] as u64) << 40u64)
        | ((bytes[3] as u64) << 32u64) | ((bytes[4] as u64) << 24u64) | ((bytes[5] as u64)
        << 16u64) | ((bytes[6] as u64) << 8u64) | (bytes[7] as u64)
}

/// Decoding the eight header bytes of a payload length gives that length back.
pub proof fn lemma_header_round_trip(len: u64)
    ensures
        header_value_of(header_bytes_of(len)) == len,
{
    let b = header_bytes_of(len);
    assert(b[0] == ((len >> 56u64) & 0xff) as u8);
    assert(b[1] == ((len >> 48u64) & 0xff) as u8);
    assert(b[2] == ((len >> 40u64) & 0xff) as u8);
    assert(b[3] == ((len >> 32u64) & 0xff) as u8);
    assert(b[4] == ((len >> 24u64) & 0xff) as u8);
    assert(b[5] == ((len >> 16u64) & 0xff) as u8);
    assert(b[6] == ((len >> 8u64) & 0xff) as u8);
    assert(b[7] == ((len >> 0u64) & 0xff) as u8);
    assert((((((len >> 56u64) & 0xff) as u8) as u64) << 56u64) | (((((len >> 48u64) & 0xff) as u8)
        as u64) << 48u64) | (((((len >> 40u64) & 0xff) as u8) as u64) << 40u64) | (((((len
        >> 32u64) & 0xff) as u8) as u64) << 32u64) | (((((len >> 24u64) & 0xff) as u8) as u64)
        << 24u64) | (((((len >> 16u64) & 0xff) as u8) as u64) << 16u64) | (((((len >> 8u64) & 0xff)
        as u8) as u64) << 8u64) | ((((len >> 0u64) & 0xff) as u8) as u64) == len) by (bit_vector);
}

/// Encodes a payload length as the eight big-endian header bytes.
pub fn header_bytes(file_size: u64) -> (r: Vec<u8>)
    ensures
        r@ == header_bytes_of(file_size),
{
    let mut r: Vec<u8> = Vec::new();
    r.push(((file_size >> 56u64) & 0xff) as u8);
    r.push(((file_size >> 48u64) & 0xff) as u8);
    r.push(((file_size >> 40u64) & 0xff) as u8);
    r.push(((file_size >> 32u64) & 0xff) as u8);
    r.push(((file_size >> 24u64) & 0xff) as u8);
    r.push(((file_size >> 16u64) & 0xff) as u8);
    r.push(((file_size >> 8u64) & 0xff) as u8);
    r.push(((file_size >> 0u64) & 0xff) as u8);
    proof {
        assert(r@ =~= header_bytes_of(file_size));
    }
    r
}

/// Reads a payload length back out of the eight header bytes.
pub fn header_value(bytes: &Vec<u8>) -> (r: u64)
    requires
        bytes@.len() == 8,
    ensures
        r == header_value_of(bytes@),
{
    ((bytes[0] as u64) << 56u64) | ((bytes[1] as u64) << 48u64) | ((bytes[2] as u64) << 40u64)
        | ((bytes[3] as u64) << 32u64) | ((bytes[4] as u64) << 24u64) | ((bytes[5] as u64)
        << 16u64) | ((bytes[6] as u64) << 8u64) | (bytes[7] as u64)
}

} // verus!
