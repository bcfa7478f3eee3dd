//! The failures that the driver reports.

use vstd::prelude::*;

verus! {

/// `std::io::ErrorKind`, the category of an I/O failure. The driver only
/// carries such a value from a failed bus access to the error it returns and
/// never looks inside.
#[verifier::external_type_specification]
#[verifier::external_body]
pub struct ExIoErrorKind(std::io::ErrorKind);

/// A failure of an operation on the FIFO.
#[derive(Clone, Copy, Debug, PartialEq, Eq, PartialOrd, Ord)]
pub enum Error {
    /// No memory map found
    NoMemoryMap,
    /// No data available
    Empty,
    /// Cannot accept more data
    Full,
    /// Read from a empty storage
    UnderRun,
    /// Write to a full storage
    OverRun,
    /// The length register does not match the number of bytes written
    LengthMismatch,
    /// Underlying IO error
    Io(std::io::ErrorKind),
}

} // verus!
