use vstd::prelude::*;

verus! {

/// Declares `std::io::Error` so that a sink's failure can be carried as it is.
#[verifier::external_type_specification]
#[verifier::external_body]
pub struct ExIoError(std::io::Error);

/// Declares `std::string::FromUtf8Error`, the failure of `String::from_utf8`.
#[verifier::external_type_specification]
#[verifier::external_body]
pub struct ExFromUtf8Error(std::string::FromUtf8Error);

/// Every failure that encoding or decoding can report.
#[derive(Debug)]
pub enum Error {
    /// A failure described by the caller, such as a walker that gave up.
    Custom(String),
    /// The input ended before a complete term was read.
    EndOfStream,
    /// The byte sink or source failed.
    Io(std::io::Error),
    /// An atom or string held bytes that are not UTF-8.
    FromUtf8(std::string::FromUtf8Error),
    /// The tag byte is not one of the supported term tags.
    InvalidTag,
    /// The value has no representation in BERT.
    UnsupportedType,
    /// The message does not start with the format version byte.
    InvalidVersionNumber,
    /// Bytes are left where the term should have ended.
    TrailingBytes,
}

impl Error {
    /// A short description of the failure.
    pub fn description(&self) -> (r: String)
        ensures
            self is EndOfStream ==> r@ == "unexpected end of file"@,
            self is InvalidTag ==> r@ == "invalid tag"@,
            self is UnsupportedType ==> r@ == "type is not supported by BERT"@,
            self is InvalidVersionNumber ==> r@ == "version number has not specified or invalid"@,
            self is TrailingBytes ==> r@ == "unexpected trailing bytes"@,
            self is Custom ==> r@ == self->Custom_0@,
            self is Io ==> r@ == "input or output failed"@,
            self is FromUtf8 ==> r@ == "invalid UTF-8 text"@,
    {
        match self {
            Error::Custom(s) => s.clone(),
            Error::EndOfStream => String::from_str("unexpected end of file"),
            Error::Io(_) => String::from_str("input or output failed"),
            Error::FromUtf8(_) => String::from_str("invalid UTF-8 text"),
            Error::InvalidTag => String::from_str("invalid tag"),
            Error::UnsupportedType => String::from_str("type is not supported by BERT"),
            Error::InvalidVersionNumber => String::from_str(
                "version number has not specified or invalid",
            ),
            Error::TrailingBytes => String::from_str("unexpected trailing bytes"),
        }
    }

    /// Builds the error that a walker reports with a message of its own.
    pub fn custom(msg: String) -> (r: Error)
        ensures
            r is Custom && r->Custom_0 == msg,
    {
        Error::Custom(msg)
    }

    /// The error for input that ended too early.
    pub fn end_of_stream() -> (r: Error)
        ensures
            r is EndOfStream,
    {
        Error::EndOfStream
    }
}

} // verus!
