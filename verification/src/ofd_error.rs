//! The error type returned by the fallible operations of this crate.
use vstd::prelude::*;

verus! {

/// What went wrong in an OFD operation.
#[derive(Debug, Clone, PartialEq, Eq)]
pub enum OfdError {
    /// Malformed input data (DER, XML, encodings).
    Conversion(String),
    /// An archive could not be read or written.
    Zip(String),
    /// Reading or writing bytes failed.
    Io(String),
    /// XML text was not usable.
    Xml(String),
}

/// Result of an OFD operation.
pub type OfdResult<T> = Result<T, OfdError>;

} // verus!
