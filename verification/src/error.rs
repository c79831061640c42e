//! Errors of the syntax layer.
use vstd::prelude::*;

verus! {

/// Declares `std::io::Error`, which the I/O variant of [`Error`] carries.
#[verifier::external_type_specification]
#[verifier::external_body]
pub struct ExIoError(std::io::Error);

/// Declares `std::fmt::Error`, which the formatting variant of [`ProtoError`] carries.
#[verifier::external_type_specification]
#[verifier::external_body]
pub struct ExFmtError(std::fmt::Error);

/// An error of the document-level operations: parsing text, writing it, reading it.
#[derive(Debug)]
pub enum ProtoError {
    /// The text could not be parsed; the message describes the syntax error.
    ParseError(String),
    SerializationError(String),
    IoError(std::io::Error),
    FormatError(std::fmt::Error),
}

/// An error of reading, parsing or converting a document.
#[derive(Debug)]
pub enum Error {
    Io(std::io::Error),
    Serialization(String),
    Deserialization(String),
    Syntax { line: usize, col: usize, message: String },
    UnexpectedEof,
    UnexpectedToken { expected: String, found: String },
    UnknownVersion(String),
}

/// The model of a syntax error: where it was found and what it says.
pub struct ErrV {
    pub line: usize,
    pub col: usize,
    pub message: Seq<char>,
}

/// True when `e` is the syntax error that `v` describes.
pub open spec fn is_syntax_error(e: Error, v: ErrV) -> bool {
    match e {
        Error::Syntax { line, col, message } => line == v.line && col == v.col && message@
            == v.message,
        _ => false,
    }
}

} // verus!
