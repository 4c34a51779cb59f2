//! Errors of the library's protocols.
use vstd::prelude::*;

verus! {

#[verifier::external_type_specification]
#[verifier::external_body]
pub struct ExIoError(std::io::Error);

/// What can go wrong while a VLESS header is read.
#[derive(Debug)]
pub enum VlessError {
    /// The byte stream under the protocol failed.
    Io(std::io::Error),
    /// The version byte is not one the protocol knows.
    InvalidVersion(u8),
    /// The command byte is not one the protocol knows.
    InvalidCommand(u8),
    /// The address-kind byte is not one the protocol knows.
    InvalidAddrKind(u8),
}

/// What can go wrong while Vision frames are read.
#[derive(Debug, Clone, Copy, PartialEq, Eq, Structural)]
pub enum VisionError {
    /// A frame header carries a command byte that is not 0, 1 or 2.
    InvalidCommand(u8),
}

} // verus!
