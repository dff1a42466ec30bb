//! The steganographic process of decoding an encoded file: duplicate-path
//! rejection and the decode operation over the encoded image's bytes.

use crate::codec::{decode_grid, decode_result};
use crate::error::{Error, ErrorContext, ErrorType, WhichDuplicates};
use crate::grid::PixelGrid;
use crate::png::{decode_rgba, png_rgba_of};
use crate::supported_file::{spec_from_file_path, SupportedFileType};
use crate::text::str_eq;
use vstd::prelude::*;

verus! {

/// Checks whether the given paths are the same.
///
/// The paths are compared literally, so the caller hands in canonical paths
/// (symlinks and `.`/`..` resolved) for the check to mean the same files.
pub fn check_for_duplicate_files(encoded_file_path: &str, output_file_path: &str) -> (r: Result<
    (),
    Error,
>)
    ensures
        ({
            let e_path = encoded_file_path@;
            let o_path = output_file_path@;
            match r {
                Ok(()) => e_path != o_path,
                Err(e) => e_path == o_path && e.error_type == ErrorType::DuplicateFiles(
                    WhichDuplicates::All,
                ) && e.contexts@ == seq![ErrorContext::EncodedFile, ErrorContext::OutputFile],
            }
        }),
{
    if str_eq(encoded_file_path, output_file_path) {
        Err(
            Error::with_two_contexts(
                ErrorContext::EncodedFile,
                ErrorContext::OutputFile,
                ErrorType::DuplicateFiles(WhichDuplicates::All),
            ),
        )
    } else {
        Ok(())
    }
}

/// Decodes the file hidden in the encoded image and returns its bytes.
///
/// The encoded file must classify as a supported carrier by its name and its
/// image must be readable; the hidden file is then read back out of the low
/// bits of the image's non-alpha channels, exactly as many bytes as the
/// embedded header announces.
pub fn decode(encoded_file_name: &str, encoded_file: &Vec<u8>) -> (r: Result<Vec<u8>, Error>)
    ensures
        ({
            let name = encoded_file_name@;
            let bytes = encoded_file@;
            if spec_from_file_path(name) is None {
                r matches Err(e) && e.error_type matches ErrorType::UnsupportedFileType(p) && p@
                    == name && e.contexts@ == seq![ErrorContext::EncodedFile]
            } else if png_rgba_of(bytes) is None {
                r matches Err(e) && (e.error_type is IOError || e.error_type is ImageError)
                    && e.contexts@ == seq![ErrorContext::EncodedFile]
            } else {
                let t = png_rgba_of(bytes)->Some_0;
                match decode_result(t.0 as int, t.1 as int, t.2) {
                    Ok(s) => r matches Ok(v) && v@ == s,
                    Err(ct) => r matches Err(e) && e.error_type == ErrorType::CorruptedFile(ct)
                        && e.contexts@ == seq![ErrorContext::EncodedFile],
                }
            }
        }),
{
    if SupportedFileType::from_file_path(encoded_file_name).is_none() {
        return Err(
            Error::with_context(
                ErrorContext::EncodedFile,
                ErrorType::UnsupportedFileType(encoded_file_name.to_owned()),
            ),
        );
    }
    let (w, h, data) = match decode_rgba(encoded_file) {
        Ok(t) => t,
        Err((is_io_error, message)) => {
            return Err(
                Error::with_context(
                    ErrorContext::EncodedFile,
                    ErrorType::from_image_failure(is_io_error, message),
                ),
            );
        },
    };
    let grid = PixelGrid { width: w, height: h, data };
    decode_grid(&grid)
}

} // verus!
