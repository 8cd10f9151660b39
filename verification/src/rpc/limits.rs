//! Shared request-size limits for RPC client and server dispatch.

use super::protocol::MAX_IO_SIZE;
use crate::error::FsError;
use crate::platform::{einval, LINUX_EINVAL};
use vstd::prelude::*;

verus! {

/// A size, or the wire maximum where the size is larger.
pub open spec fn clamped_size(size: u32) -> u32 {
    if size > MAX_IO_SIZE {
        MAX_IO_SIZE
    } else {
        size
    }
}

/// Clamp a read/write size to the wire maximum.
pub fn clamp_io_size(size: u32) -> (r: Result<u32, FsError>)
    ensures
        r == Ok::<u32, FsError>(clamped_size(size)),
{
    if size > MAX_IO_SIZE {
        return Ok(MAX_IO_SIZE);
    }
    Ok(size)
}

/// Reject writes larger than the wire maximum.
pub fn clamp_write_len(len: usize) -> (r: Result<(), FsError>)
    ensures
        r == (if len > MAX_IO_SIZE {
            Err::<(), FsError>(FsError::Os(LINUX_EINVAL))
        } else {
            Ok(())
        }),
{
    if len > MAX_IO_SIZE as usize {
        return Err(einval());
    }
    Ok(())
}

} // verus!
