//! The error type shared by providers, the scaffold and the RPC bridge.

use vstd::prelude::*;

verus! {

/// How a peer or a provider broke the protocol.
#[derive(Debug, Clone, Copy, PartialEq, Eq, Structural)]
pub enum DataFault {
    /// A node kind byte outside the known range.
    UnknownNodeKind,
    /// A hello that does not start with the protocol magic.
    BadMagic,
    /// A hello with a protocol version this build does not speak.
    UnsupportedVersion(u32),
    /// A frame header announcing more bytes than a frame may carry.
    FrameTooLarge,
    /// A read that returned more bytes than requested.
    ReadTooLong,
    /// A write that claims more bytes than were sent.
    WriteTooLong,
    /// A batched getattr whose answer count differs from the question count.
    BatchMismatch,
    /// A reply stamped with an id other than the request's.
    ResponseIdMismatch,
    /// Data that does not decode.
    Malformed,
}

/// An error of a filesystem operation.
///
/// Errors that carry a code carry a **Linux** errno, the value the guest and
/// the RPC wire speak.
#[derive(Debug, Clone, Copy, PartialEq, Eq, Structural)]
pub enum FsError {
    /// A Linux errno.
    Os(i32),
    /// Data that breaks the protocol.
    InvalidData(DataFault),
    /// Input that cannot be taken, such as a payload too large to be framed.
    InvalidInput,
    /// The stream ended before the expected bytes arrived.
    UnexpectedEof,
    /// Any other failure without an errno.
    Other,
}

impl FsError {
    /// The errno carried by this error, if it carries one.
    pub open spec fn spec_raw_os_error(self) -> Option<i32> {
        match self {
            FsError::Os(errno) => Some(errno),
            _ => None,
        }
    }

    /// The errno carried by this error, if it carries one.
    #[verifier::when_used_as_spec(spec_raw_os_error)]
    pub fn raw_os_error(self) -> (r: Option<i32>)
        ensures
            r == self.spec_raw_os_error(),
    {
        match self {
            FsError::Os(errno) => Some(errno),
            _ => None,
        }
    }

    /// Whether this error carries exactly `errno`.
    pub fn is_errno(self, errno: i32) -> (r: bool)
        ensures
            r == (self == FsError::Os(errno)),
    {
        match self {
            FsError::Os(e) => e == errno,
            _ => false,
        }
    }
}

} // verus!
