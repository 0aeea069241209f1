//! Error type shared by the decoders and the reader.

use vstd::prelude::*;

verus! {

/// An outside type: the error of `std::io`, carried through unchanged.
#[verifier::external_type_specification]
#[verifier::external_body]
pub struct ExIoError(std::io::Error);

/// An outside type: the error of `serde_json`, carried through unchanged.
#[verifier::external_type_specification]
#[verifier::external_body]
pub struct ExJsonError(serde_json::Error);

/// Why an operation failed.
///
/// `IoError` is a failure at the OS boundary, `SegyError` a structural
/// violation in the file, `ValidationError` a bad request from the caller,
/// and `ParseError` a configuration document that could not be read.
#[derive(Debug)]
pub enum AppError {
    /// I/O operation failed.
    IoError { message: String },
    /// A document could not be parsed.
    ParseError { message: String },
    /// Invalid input from the caller.
    ValidationError { message: String },
    /// The file violates the SEG-Y structure.
    SegyError { message: String },
}

impl AppError {
    /// The human-readable message of the error.
    pub fn message(&self) -> (text: &String)
        ensures
            *text == match *self {
                AppError::IoError { message } => message,
                AppError::ParseError { message } => message,
                AppError::ValidationError { message } => message,
                AppError::SegyError { message } => message,
            },
    {
        match self {
            AppError::IoError { message } => message,
            AppError::ParseError { message } => message,
            AppError::ValidationError { message } => message,
            AppError::SegyError { message } => message,
        }
    }
}

impl From<std::io::Error> for AppError {
    /// An I/O error becomes `IoError`, with the error's own text as message.
    fn from(error: std::io::Error) -> (converted: AppError)
        ensures
            converted matches AppError::IoError { message }
                && vstd::string::to_string_from_display_ensures::<std::io::Error>(&error, message),
    {
        AppError::IoError { message: error.to_string() }
    }
}

impl vstd::std_specs::convert::FromSpecImpl<std::io::Error> for AppError {
    open spec fn obeys_from_spec() -> bool {
        false
    }

    open spec fn from_spec(error: std::io::Error) -> AppError {
        AppError::IoError { message: arbitrary() }
    }
}

impl From<serde_json::Error> for AppError {
    /// A JSON error becomes `ParseError`, with the error's own text as
    /// message.
    fn from(error: serde_json::Error) -> (converted: AppError)
        ensures
            converted matches AppError::ParseError { message }
                && vstd::string::to_string_from_display_ensures::<serde_json::Error>(
                &error,
                message,
            ),
    {
        AppError::ParseError { message: error.to_string() }
    }
}

impl vstd::std_specs::convert::FromSpecImpl<serde_json::Error> for AppError {
    open spec fn obeys_from_spec() -> bool {
        false
    }

    open spec fn from_spec(error: serde_json::Error) -> AppError {
        AppError::ParseError { message: arbitrary() }
    }
}

} // verus!
