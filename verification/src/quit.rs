//! The exit codes of the program, and which of them an error leads to.

use crate::error::io_description;
use crate::error::Error;
use vstd::prelude::*;

verus! {

/// The exit codes returned by the program.
#[derive(Clone, Copy, Debug, Eq, Ord, PartialEq, PartialOrd)]
pub enum ExitCode {
    /// Successful (i.e. expected) program execution (Code: `0`).
    Success,
    /// Failure due to I/O operations (Code: `1`).
    IOFailure,
}

impl ExitCode {
    /// The number that the program hands to its caller for this exit code.
    pub open spec fn spec_code(self) -> i32 {
        match self {
            ExitCode::Success => 0i32,
            ExitCode::IOFailure => 1i32,
        }
    }

    /// The number that the program hands to its caller for this exit code.
    #[verifier::when_used_as_spec(spec_code)]
    pub fn code(self) -> (code: i32)
        ensures
            code == self.spec_code(),
    {
        match self {
            ExitCode::Success => 0i32,
            ExitCode::IOFailure => 1i32,
        }
    }
}

/// How the program quits on `error`: the exit code, chosen by the kind of the error, and the
/// message that explains the exit, which is the error's description.
pub fn fail_from_error(error: &Error) -> (exit: (ExitCode, String))
    ensures
        exit.0 == ExitCode::IOFailure,
        exit.1@ == io_description(error->IO_0),
{
    match error {
        Error::IO(_) => (ExitCode::IOFailure, error.description()),
    }
}

} // verus!
