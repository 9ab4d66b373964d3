//! Error taxonomy: malformed PE structure, missing resource, bad text encoding.

use vstd::prelude::*;

verus! {

/// Failure while parsing the PE image or navigating its resource tree.
#[derive(Clone, Copy, Debug, PartialEq, Eq, Structural)]
pub enum ParseError {
    /// A read would exceed the buffer bounds.
    Truncated,
    /// A signature check ("MZ", "PE\0\0", optional-header magic) failed.
    BadMagic,
    /// The image is a 32-bit PE, which is out of scope.
    Not64Bit,
    /// No section of the section table contains the requested address.
    UnresolvedRva,
    /// The image has no resource directory or no resource of the requested type.
    ResourceNotFound,
}

/// Failure while turning a located resource into manifest text.
#[derive(Clone, Copy, Debug, PartialEq, Eq, Structural)]
pub enum ExtractError {
    /// The resource bytes are not a valid text encoding.
    InvalidEncoding,
    /// The resource's data range could not be resolved inside the buffer.
    Parse(ParseError),
}

/// Failure of the whole single-file pipeline; the scanner treats any of these
/// as "this file does not match" and moves on.
#[derive(Clone, Copy, Debug, PartialEq, Eq, Structural)]
pub enum ScanError {
    Parse(ParseError),
    Extract(ExtractError),
}

} // verus!
