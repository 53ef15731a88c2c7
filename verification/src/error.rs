//! Error handling.

use vstd::prelude::*;

verus! {

/// The error type of `std::io`, carried as it is: nothing inside of it is read here.
#[verifier::external_type_specification]
#[verifier::external_body]
pub struct ExIoError(std::io::Error);

/// A wrapper type for all errors caused by this crate.
#[derive(Debug)]
pub enum Error {
    /// IO errors caused by file handling failures.
    IO(std::io::Error),
}

impl From<std::io::Error> for Error {
    fn from(error: std::io::Error) -> (wrapped: Error) {
        Error::IO(error)
    }
}

impl vstd::std_specs::convert::FromSpecImpl<std::io::Error> for Error {
    open spec fn obeys_from_spec() -> bool {
        true
    }

    open spec fn from_spec(error: std::io::Error) -> Error {
        Error::IO(error)
    }
}

/// The text that `std::io::Error` shows itself as, by its `Display`. Nothing is claimed of the
/// text: for an error of the operating system it is what the system says in its own words.
#[verifier::external_body]
fn io_error_text(error: &std::io::Error) -> (text: String) {
    format!("{}", error)
}

/// The short description that an error of `std::io` gives of itself, by the `description`
/// method of `std::error::Error`.
pub uninterp spec fn io_description(error: std::io::Error) -> Seq<char>;

/// The short description that `std::io::Error` gives of itself, by the `description` method of
/// `std::error::Error`. The contract says no more than that the text is what that method gives
/// for this error.
#[verifier::external_body]
#[allow(deprecated)]
fn io_error_description(error: &std::io::Error) -> (text: String)
    ensures
        text@ == io_description(*error),
{
    String::from(std::error::Error::description(error))
}

impl Error {
    /// The message of this error: that of the error it wraps.
    pub fn message(&self) -> (text: String) {
        match self {
            Error::IO(error) => io_error_text(error),
        }
    }

    /// A short description of this error: that of the error it wraps.
    pub fn description(&self) -> (text: String)
        ensures
            text@ == io_description(self->IO_0),
    {
        match self {
            Error::IO(error) => io_error_description(error),
        }
    }

    /// The error that caused this one: the error it wraps.
    pub fn cause(&self) -> (cause: Option<&std::io::Error>)
        ensures
            cause == Some(&self->IO_0),
    {
        match self {
            Error::IO(error) => Some(error),
        }
    }
}

} // verus!
