//! Error types of the wire codec and of the schema compiler.

use vstd::prelude::*;
use vstd::string::*;

verus! {

/// Errors that can occur while building or reading message buffers.
#[derive(Debug, Clone, PartialEq, Eq)]
pub enum Error {
    /// The field index or a payload range lies outside the buffer.
    OutOfBounds,
    /// The stored type id disagrees with the requested accessor.
    InvalidFieldType,
    /// A string payload is not valid UTF-8.
    InvalidUtf8,
    /// Invalid data format.
    InvalidFormat,
    /// The buffer is too small for its header and field table.
    InvalidMessage,
    /// A strict accessor met a field whose entry is unset.
    MissingField,
    /// Custom error message.
    Custom(String),
}

/// Errors of the schema compiler.
#[derive(Debug)]
pub enum CompilerError {
    /// The text is not a schema; the message names the first syntax error.
    Parse(String),
    /// The schema breaks a semantic rule; the message names the symbol.
    Validation(String),
    /// Code could not be generated.
    Codegen(String),
    /// Reading or writing a file failed; the message is the cause.
    Io(String),
    /// A schema file could not be read; the message is its path.
    FileNotFound(String),
}

/// The text of a codec error.
pub open spec fn error_text(e: Error) -> Seq<char> {
    match e {
        Error::OutOfBounds => "Buffer out of bounds"@,
        Error::InvalidFieldType => "Invalid field type"@,
        Error::InvalidUtf8 => "Invalid UTF-8 string"@,
        Error::InvalidFormat => "Invalid data format"@,
        Error::InvalidMessage => "Invalid message format"@,
        Error::MissingField => "Field not present"@,
        Error::Custom(message) => message@,
    }
}

impl Error {
    /// The text of this error.
    pub fn message(&self) -> (text: String)
        ensures
            text@ == error_text(*self),
    {
        match self {
            Error::OutOfBounds => "Buffer out of bounds".to_owned(),
            Error::InvalidFieldType => "Invalid field type".to_owned(),
            Error::InvalidUtf8 => "Invalid UTF-8 string".to_owned(),
            Error::InvalidFormat => "Invalid data format".to_owned(),
            Error::InvalidMessage => "Invalid message format".to_owned(),
            Error::MissingField => "Field not present".to_owned(),
            Error::Custom(message) => message.clone(),
        }
    }
}

/// The text of a compiler error: what kind of error it is, then its
/// message.
pub open spec fn compiler_error_text(e: CompilerError) -> Seq<char> {
    match e {
        CompilerError::Parse(message) => "Parse error: "@ + message@,
        CompilerError::Validation(message) => "Validation error: "@ + message@,
        CompilerError::Codegen(message) => "Code generation error: "@ + message@,
        CompilerError::Io(message) => "IO error: "@ + message@,
        CompilerError::FileNotFound(message) => "File not found: "@ + message@,
    }
}

impl CompilerError {
    /// The text of this error.
    pub fn message(&self) -> (text: String)
        ensures
            text@ == compiler_error_text(*self),
    {
        let (prefix, message) = match self {
            CompilerError::Parse(message) => ("Parse error: ", message),
            CompilerError::Validation(message) => ("Validation error: ", message),
            CompilerError::Codegen(message) => ("Code generation error: ", message),
            CompilerError::Io(message) => ("IO error: ", message),
            CompilerError::FileNotFound(message) => ("File not found: ", message),
        };
        let mut text = prefix.to_owned();
        text.append(message.as_str());
        text
    }
}

} // verus!
