//! The ways in which building or reading a file tree can fail.

use vstd::prelude::*;

verus! {

/// Why an operation on a file tree did not produce a result.
#[derive(Clone, Copy, Debug, PartialEq, Eq, Structural)]
pub enum Error {
    /// The path has no final component, or the component is not readable text.
    BadPath,
    /// The file could not be opened, or the node has no backing file.
    BadFile,
    /// The metadata reports a directory where a file was required.
    DirectoryNotExpected,
    /// The nesting depth or the total number of entries is over its limit.
    TransferLimitsExceeded,
    /// A descriptor was given on a platform that has no descriptors.
    InvalidArgument,
}

} // verus!
