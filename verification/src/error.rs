//! The error taxonomy shared by every scanning layer.

use vstd::prelude::*;

verus! {

/// One error kind per failure class of the scan: I/O trouble, a configured
/// path that does not resolve as expected, a malformed line, and a catch-all
/// for invariant violations.  Each variant carries a human-readable message.
#[derive(Debug)]
pub enum ConsignError {
    IoError(String),
    DirNotFound(String),
    FileNotFound(String),
    LoggingError(String),
    ParseError(String),
    GeneralFailure(String),
}

} // verus!
