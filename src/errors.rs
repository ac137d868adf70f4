use vstd::prelude::*;

use crate::constants::StoredType;
use crate::protocol::Status;

verus! {

/// Every way an operation of the client can fail.
#[derive(Clone, Debug, PartialEq, Eq)]
pub enum BMemcachedError {
    /// Reading from or writing to the server's socket failed; the text is the
    /// transport's own message.
    Transport(String),
    /// The server answered with a well-formed frame whose status is not
    /// `Success`.
    Status(Status),
    /// The response frame breaks the protocol's structure: a bad magic byte, an
    /// unknown status, or lengths that do not fit together.
    ProtocolDesync,
    /// The key is empty or longer than the protocol allows; nothing was sent.
    KeyLengthTooLong(usize),
    /// The frame's body would not fit the protocol's 32-bit length field.
    ValueTooLarge(usize),
    /// The stored flags do not meet the bit that the requested type reads.
    TypeMismatch(StoredType),
    /// A value read as a string is not UTF-8.
    Utf8,
}

pub type Result<T> = core::result::Result<T, BMemcachedError>;

} // verus!
