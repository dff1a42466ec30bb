//! The error taxonomy of the codec: every failure carries the set of files it
//! pertains to, and a description of what went wrong.

use vstd::prelude::*;

verus! {

/// Contains information about an error that occurred while processing a request.
#[derive(Debug, PartialEq, Eq)]
pub struct Error {
    /// Which files the error is associated with. Most often a single file.
    pub contexts: Vec<ErrorContext>,
    /// What the type of error was that occurred.
    pub error_type: ErrorType,
}

/// A representation of which file in the steganography process caused the error.
#[derive(Debug, Clone, Copy, PartialEq, Eq, Structural)]
pub enum ErrorContext {
    /// The file into which data is encoded.
    BaseFile,
    /// The file that is hidden inside a base file.
    SecretFile,
    /// A file with a secret hidden in it.
    EncodedFile,
    /// A file used to output the results of an operation.
    OutputFile,
}

/// Different types of errors associated with encoding and decoding files.
#[derive(Debug, PartialEq, Eq)]
pub enum ErrorType {
    /// An error due to reading or writing from the file system.
    IOError(String),
    /// An error due to trying to perform an operation on an unsupported file type.
    UnsupportedFileType(String),
    /// An error due to trying to encode a secret file into a base file too small to contain it.
    BaseFileNotBigEnough {
        /// The amount of space available in the base file for encoding.
        available_size: u64,
        /// The amount of space the secret file requires to be encoded into.
        secret_file_size: u64,
    },
    /// An error due to trying to perform an operation with the same file serving multiple roles.
    DuplicateFiles(WhichDuplicates),
    /// An error due to an image file in an uninterpretable format.
    ImageError(String),
    /// An error due to an encoded file in an uninterpretable format.
    CorruptedFile(CorruptionType),
}

/// Represents different sets of files that may be duplicates when encoding.
#[derive(Debug, Clone, Copy, PartialEq, Eq, Structural)]
pub enum WhichDuplicates {
    BaseAndSecret,
    SecretAndOutput,
    BaseAndOutput,
    All,
}

/// Represents how an encoded file was corrupted.
#[derive(Debug, Clone, Copy, PartialEq, Eq, Structural)]
pub enum CorruptionType {
    /// The header to the secret data was in an uninterpretable format.
    IncorrectHeader,
    /// The encoded file is too small to contain data.
    FileTooSmallForHeader,
}

impl ErrorType {
    /// Wraps what the image library reported: its I/O failures flatten into
    /// the I/O category, everything else surfaces as an image error.
    pub fn from_image_failure(is_io_error: bool, message: String) -> (r: ErrorType)
        ensures
            r == if is_io_error {
                ErrorType::IOError(message)
            } else {
                ErrorType::ImageError(message)
            },
    {
        if is_io_error {
            ErrorType::IOError(message)
        } else {
            ErrorType::ImageError(message)
        }
    }
}

impl Error {
    /// Attaches a single file context to an error type.
    pub fn with_context(context: ErrorContext, error_type: ErrorType) -> (r: Error)
        ensures
            r.contexts@ == seq![context],
            r.error_type == error_type,
    {
        let mut contexts: Vec<ErrorContext> = Vec::new();
        contexts.push(context);
        proof {
            assert(contexts@ =~= seq![context]);
        }
        Error { contexts, error_type }
    }

    /// Attaches two file contexts, in order, to an error type.
    pub fn with_two_contexts(c0: ErrorContext, c1: ErrorContext, error_type: ErrorType) -> (r: Error)
        ensures
            r.contexts@ == seq![c0, c1],
            r.error_type == error_type,
    {
        let mut contexts: Vec<ErrorContext> = Vec::new();
        contexts.push(c0);
        contexts.push(c1);
        proof {
            assert(contexts@ =~= seq![c0, c1]);
        }
        Error { contexts, error_type }
    }

    /// Attaches three file contexts, in order, to an error type.
    pub fn with_three_contexts(
        c0: ErrorContext,
        c1: ErrorContext,
        c2: ErrorContext,
        error_type: ErrorType,
    ) -> (r: Error)
        ensures
            r.contexts@ == seq![c0, c1, c2],
            r.error_type == error_type,
    {
        let mut contexts: Vec<ErrorContext> = Vec::new();
        contexts.push(c0);
        contexts.push(c1);
        contexts.push(c2);
        proof {
            assert(contexts@ =~= seq![c0, c1, c2]);
        }
        Error { contexts, error_type }
    }
}

} // verus!
