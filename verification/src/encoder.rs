//! The steganographic process of encoding a hidden file inside a base file:
//! duplicate-path rejection, the capacity precheck, and the encode operation
//! over the carrier's bytes.

use crate::codec::{encode_grid, encoded_data, payload_bytes};
use crate::error::{Error, ErrorContext, ErrorType, WhichDuplicates};
use crate::grid::{fits, fits_within, spec_available_space, PixelGrid};
use crate::png::{decode_rgba, encode_rgba, png_bytes_of, png_rgba_of};
use crate::supported_file::{spec_from_file_path, SupportedFileType};
use crate::text::str_eq;
use vstd::prelude::*;

verus! {

/// Checks whether any of the given paths are the same.
///
/// The paths are compared literally, so the caller hands in canonical paths
/// (symlinks and `.`/`..` resolved) for the check to mean the same files.
pub fn check_for_duplicate_files(
    base_file_path: &str,
    secret_file_path: &str,
    output_file_path: &str,
) -> (r: Result<(), Error>)
    ensures
        ({
            let b = base_file_path@;
            let s = secret_file_path@;
            let o = output_file_path@;
            match r {
                Ok(()) => b != s && b != o && s != o,
                Err(e) => {
                    &&& e.error_type matches ErrorType::DuplicateFiles(k) && {
                        if b == s && s == o {
                            k == WhichDuplicates::All && e.contexts@ == seq![
                                ErrorContext::BaseFile,
                                ErrorContext::SecretFile,
                                ErrorContext::OutputFile,
                            ]
                        } else if b == s {
                            k == WhichDuplicates::BaseAndSecret && e.contexts@ == seq![
                                ErrorContext::BaseFile,
                                ErrorContext::SecretFile,
                            ]
                        } else if b == o {
                            k == WhichDuplicates::BaseAndOutput && e.contexts@ == seq![
                                ErrorContext::BaseFile,
                                ErrorContext::OutputFile,
                            ]
                        } else {
                            s == o && k == WhichDuplicates::SecretAndOutput && e.contexts@ == seq![
                                ErrorContext::SecretFile,
                                ErrorContext::OutputFile,
                            ]
                        }
                    }
                },
            }
        }),
{
    if str_eq(base_file_path, secret_file_path) {
        if str_eq(secret_file_path, output_file_path) {
            Err(
                Error::with_three_contexts(
                    ErrorContext::BaseFile,
                    ErrorContext::SecretFile,
                    ErrorContext::OutputFile,
                    ErrorType::DuplicateFiles(WhichDuplicates::All),
                ),
            )
        } else {
            Err(
                Error::with_two_contexts(
                    ErrorContext::BaseFile,
                    ErrorContext::SecretFile,
                    ErrorType::DuplicateFiles(WhichDuplicates::BaseAndSecret),
                ),
            )
        }
    } else if str_eq(base_file_path, output_file_path) {
        Err(
            Error::with_two_contexts(
                ErrorContext::BaseFile,
                ErrorContext::OutputFile,
                ErrorType::DuplicateFiles(WhichDuplicates::BaseAndOutput),
            ),
        )
    } else if str_eq(secret_file_path, output_file_path) {
        Err(
            Error::with_two_contexts(
                ErrorContext::SecretFile,
                ErrorContext::OutputFile,
                ErrorType::DuplicateFiles(WhichDuplicates::SecretAndOutput),
            ),
        )
    } else {
        Ok(())
    }
}

/// Encodes the secret file into the base file and returns the bytes of the
/// encoded image.
///
/// The base must classify as a supported carrier by its name, its image must
/// be readable, and the secret must fit its available space; the encoded
/// image then carries the payload in the low bits of its non-alpha channels
/// and is serialized in the carrier's own format.
pub fn encode(base_file_name: &str, base_file: &Vec<u8>, secret_file: &Vec<u8>) -> (r: Result<
    Vec<u8>,
    Error,
>)
    ensures
        ({
            let name = base_file_name@;
            let base = base_file@;
            let len = secret_file@.len() as int;
            if spec_from_file_path(name) is None {
                r matches Err(e) && e.error_type matches ErrorType::UnsupportedFileType(p) && p@
                    == name && e.contexts@ == seq![ErrorContext::BaseFile]
            } else if crate::png::png_dims_of(base) is None {
                r matches Err(e) && (e.error_type is IOError || e.error_type is ImageError)
                    && e.contexts@ == seq![ErrorContext::BaseFile]
            } else if !fits(
                crate::png::png_dims_of(base)->Some_0.0 as int,
                crate::png::png_dims_of(base)->Some_0.1 as int,
                len,
            ) {
                let d = crate::png::png_dims_of(base)->Some_0;
                r matches Err(e) && e.error_type matches ErrorType::BaseFileNotBigEnough {
                    available_size,
                    secret_file_size,
                } && available_size as int == spec_available_space(d.0 as int, d.1 as int)
                    && secret_file_size as int == len && e.contexts@ == seq![ErrorContext::BaseFile]
            } else if png_rgba_of(base) is None {
                r matches Err(e) && (e.error_type is IOError || e.error_type is ImageError)
                    && e.contexts@ == seq![ErrorContext::BaseFile]
            } else if !fits(
                png_rgba_of(base)->Some_0.0 as int,
                png_rgba_of(base)->Some_0.1 as int,
                len,
            ) {
                let t = png_rgba_of(base)->Some_0;
                r matches Err(e) && e.error_type matches ErrorType::BaseFileNotBigEnough {
                    available_size,
                    secret_file_size,
                } && available_size as int == spec_available_space(t.0 as int, t.1 as int)
                    && secret_file_size as int == len && e.contexts@ == seq![ErrorContext::BaseFile]
            } else {
                let t = png_rgba_of(base)->Some_0;
                match png_bytes_of(
                    t.0,
                    t.1,
                    encoded_data(t.2, t.0 as int, t.1 as int, payload_bytes(secret_file@)),
                ) {
                    Some(out) => r matches Ok(v) && v@ == out,
                    None => r matches Err(e) && (e.error_type is IOError
                        || e.error_type is ImageError) && e.contexts@ == seq![
                        ErrorContext::OutputFile,
                    ],
                }
            }
        }),
{
    if SupportedFileType::from_file_path(base_file_name).is_none() {
        return Err(
            Error::with_context(
                ErrorContext::BaseFile,
                ErrorType::UnsupportedFileType(base_file_name.to_owned()),
            ),
        );
    }
    // The capacity precheck reads only the carrier's metadata.
    let (width, height) = match crate::png::read_dimensions(base_file) {
        Ok(d) => d,
        Err((is_io_error, message)) => {
            return Err(
                Error::with_context(
                    ErrorContext::BaseFile,
                    ErrorType::from_image_failure(is_io_error, message),
                ),
            );
        },
    };
    if !fits_within(width, height, secret_file.len() as u64) {
        let available_size = crate::grid::available_space(width, height);
        return Err(
            Error::with_context(
                ErrorContext::BaseFile,
                ErrorType::BaseFileNotBigEnough {
                    available_size,
                    secret_file_size: secret_file.len() as u64,
                },
            ),
        );
    }
    let (w, h, data) = match decode_rgba(base_file) {
        Ok(t) => t,
        Err((is_io_error, message)) => {
            return Err(
                Error::with_context(
                    ErrorContext::BaseFile,
                    ErrorType::from_image_failure(is_io_error, message),
                ),
            );
        },
    };
    let mut grid = PixelGrid { width: w, height: h, data };
    match encode_grid(&mut grid, secret_file) {
        Ok(()) => {},
        Err(e) => {
            return Err(e);
        },
    }
    match encode_rgba(grid.width, grid.height, &grid.data) {
        Ok(v) => Ok(v),
        Err((is_io_error, message)) => Err(
            Error::with_context(
                ErrorContext::OutputFile,
                ErrorType::from_image_failure(is_io_error, message),
            ),
        ),
    }
}

} // verus!
