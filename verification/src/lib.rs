//! A steganographic codec: hides an arbitrary secret byte stream inside the
//! two least-significant bits of the non-alpha channels of a lossless RGBA
//! carrier image, and recovers it exactly.

pub mod base_file;
pub mod codec;
pub mod decoder;
pub mod encoder;
pub mod error;
pub mod geometry;
pub mod grid;
pub mod header;
pub mod laws;
pub mod png;
pub mod supported_file;
pub mod text;

pub use base_file::{get_properties, FileProperties};
pub use error::{CorruptionType, Error, ErrorContext, ErrorType, WhichDuplicates};
pub use supported_file::SupportedFileType;

use vstd::prelude::*;

verus! {

/// The number of bytes used as a header for the hidden data.
///
/// These bytes hold, big-endian, how many bytes of secret data follow.
pub const HEADER_BYTES: u64 = 8;

} // verus!
