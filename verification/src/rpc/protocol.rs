//! The VFS-op wire protocol: a request/response pair per
//! [`PathFs`](crate::path_fs::PathFs) method.
//!
//! These types cross the process boundary that separates the controlling process
//! (which runs the user's provider) from the runtime (which serves FUSE). Paths
//! and names are raw bytes, never UTF-8-validated strings, and errors carry a
//! **Linux** errno, so that they round-trip exactly.

use vstd::prelude::*;

verus! {

/// Maximum bytes per read/write payload (matches the FUSE BIG_WRITES default).
pub const MAX_IO_SIZE: u32 = 128 * 1024;

/// Maximum paths in a single `GetAttrMany` batch.
pub const MAX_BATCH_PATHS: usize = 4096;

/// Total path bytes allowed in one `GetAttrMany` request.
pub const MAX_BATCH_PATH_BYTES: usize = 256 * 1024;

/// Maximum directory entries returned in one `ReadDir` response.
pub const MAX_READDIR_ENTRIES: usize = 1048576;

/// Maximum size of a single framed message, bounding the allocation a corrupt
/// length prefix can force.
pub const MAX_FRAME_LEN: u32 = 8 * 1024 * 1024;

/// Maximum extended-attribute value length accepted on the wire.
pub const MAX_XATTR_VALUE: usize = 64 * 1024;

/// The wire-protocol version, exchanged once via the hello handshake, so that a
/// skew between the independently versioned ends fails loudly at channel open
/// instead of as an opaque mid-stream decode error.
pub const PROTOCOL_VERSION: u32 = 1;

} // verus!
