//! The properties query over a base file: classify it, read only its
//! dimensions, and report how much space it has for a secret.

use crate::error::{Error, ErrorContext, ErrorType};
use crate::grid::spec_available_space;
use crate::png::{png_dims_of, read_dimensions};
use crate::supported_file::{spec_from_file_path, SupportedFileType};
use vstd::prelude::*;

verus! {

/// A collection of properties about the base file.
#[derive(Debug, Clone, Copy, PartialEq, Eq, Structural)]
pub struct FileProperties {
    pub available_space: u64,
    pub file_type: SupportedFileType,
}

/// Finds the amount of space, in bytes, that can be used to store a secret
/// file in the given carrier image, reading only the image's metadata.
pub fn available_size_of(file: &Vec<u8>) -> (r: Result<u64, ErrorType>)
    ensures
        match png_dims_of(file@) {
            Some(d) => r matches Ok(v) && v as int == spec_available_space(
                d.0 as int,
                d.1 as int,
            ),
            None => r matches Err(et) && (et is IOError || et is ImageError),
        },
{
    match read_dimensions(file) {
        Ok((width, height)) => Ok(crate::grid::available_space(width, height)),
        Err((is_io_error, message)) => Err(ErrorType::from_image_failure(is_io_error, message)),
    }
}

/// Gets the properties of a file: its type, and how much space is available
/// to hide a secret file in it. Reads only the image's metadata and has no
/// side effects.
pub fn get_properties(base_file_name: &str, base_file: &Vec<u8>) -> (r: Result<
    FileProperties,
    Error,
>)
    ensures
        ({
            let name = base_file_name@;
            let bytes = base_file@;
            if spec_from_file_path(name) is None {
                r matches Err(e) && e.error_type matches ErrorType::UnsupportedFileType(p) && p@
                    == name && e.contexts@ == seq![ErrorContext::BaseFile]
            } else {
                match png_dims_of(bytes) {
                    Some(d) => r matches Ok(p) && p.available_space as int == spec_available_space(
                        d.0 as int,
                        d.1 as int,
                    ) && Some(p.file_type) == spec_from_file_path(name),
                    None => r matches Err(e) && (e.error_type is IOError
                        || e.error_type is ImageError) && e.contexts@ == seq![
                        ErrorContext::BaseFile,
                    ],
                }
            }
        }),
{
    let file_type = match SupportedFileType::from_file_path(base_file_name) {
        Some(t) => t,
        None => {
            return Err(
                Error::with_context(
                    ErrorContext::BaseFile,
                    ErrorType::UnsupportedFileType(base_file_name.to_owned()),
                ),
            );
        },
    };
    match available_size_of(base_file) {
        Ok(available_space) => Ok(FileProperties { available_space, file_type }),
        Err(error_type) => Err(Error::with_context(ErrorContext::BaseFile, error_type)),
    }
}

} // verus!
