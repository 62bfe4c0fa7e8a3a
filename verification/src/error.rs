use vstd::prelude::*;
use vstd::std_specs::convert::FromSpecImpl;

verus! {

/// The error of the operating system that reading a file may end in. Nothing
/// in this library looks inside one.
#[verifier::external_type_specification]
#[verifier::external_body]
pub struct ExIoError(std::io::Error);

/// Why an image could not be loaded.
#[derive(Debug)]
pub enum PngError {
    /// The file could not be read.
    Io(std::io::Error),
    /// The data does not start with the signature of the format.
    InvalidHeader,
    /// The data breaks a rule of the format; the message says which.
    InvalidFormat(String),
}

impl PngError {
    /// Whether this is the error of a broken rule, with `message` as its text.
    pub open spec fn is_format_error(self, message: Seq<char>) -> bool {
        self matches PngError::InvalidFormat(text) && text@ == message
    }
}

impl From<std::io::Error> for PngError {
    fn from(err: std::io::Error) -> (error: Self) {
        PngError::Io(err)
    }
}

impl FromSpecImpl<std::io::Error> for PngError {
    open spec fn obeys_from_spec() -> bool {
        true
    }

    open spec fn from_spec(err: std::io::Error) -> Self {
        PngError::Io(err)
    }
}

impl From<String> for PngError {
    fn from(err: String) -> (error: Self) {
        PngError::InvalidFormat(err)
    }
}

impl FromSpecImpl<String> for PngError {
    open spec fn obeys_from_spec() -> bool {
        true
    }

    open spec fn from_spec(err: String) -> Self {
        PngError::InvalidFormat(err)
    }
}

} // verus!
