//! Error kinds shared by the protocol core and the process-facing layer.

use vstd::prelude::*;

verus! {

/// Transparent declaration of `std::io::Error`, so that a transport failure
/// can be carried through the library's error type.
#[verifier::external_type_specification]
#[verifier::external_body]
pub struct ExIoError(std::io::Error);

/// What can go wrong while talking to the debugger.
///
/// `IOError` is a transport failure on the underlying pipes, `ParseError` a
/// protocol line the grammar rejects, and `IgnoredOutput` a well-formed line
/// that carries nothing for the caller (absorbed during sequence reading,
/// never surfaced by the high-level send operation).
#[derive(Debug)]
pub enum GDBError {
    IOError(std::io::Error),
    ParseError,
    IgnoredOutput,
}

pub type GDBResult<T> = Result<T, GDBError>;

impl GDBError {
    /// A human-readable description of the error.
    pub fn describe(&self) -> (r: &'static str)
        ensures
            self is IOError ==> r@ == "input/output error while talking to gdb"@,
            self is ParseError ==> r@ == "cannot parse response from gdb"@,
            self is IgnoredOutput ==> r@ == "ignored output"@,
    {
        match self {
            GDBError::IOError(_) => "input/output error while talking to gdb",
            GDBError::ParseError => "cannot parse response from gdb",
            GDBError::IgnoredOutput => "ignored output",
        }
    }
}

impl From<std::io::Error> for GDBError {
    fn from(err: std::io::Error) -> (r: GDBError) {
        GDBError::IOError(err)
    }
}

impl vstd::std_specs::convert::FromSpecImpl<std::io::Error> for GDBError {
    open spec fn obeys_from_spec() -> bool {
        true
    }

    open spec fn from_spec(err: std::io::Error) -> GDBError {
        GDBError::IOError(err)
    }
}

} // verus!
