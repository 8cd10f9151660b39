//! Configuration of a [`VirtualFs`](crate::vfs::VirtualFs).

use crate::time::Span;
use vstd::prelude::*;

verus! {

/// Cache policy for FUSE open options.
#[derive(Debug, Clone, Copy, PartialEq, Eq, Structural)]
pub enum CachePolicy {
    /// No caching: sets `DIRECT_IO`.
    Never,
    /// Let the kernel decide.
    Auto,
    /// Aggressive caching: sets `KEEP_CACHE`/`CACHE_DIR`.
    Always,
}

/// Configuration of a [`VirtualFs`](crate::vfs::VirtualFs).
#[derive(Debug, Clone, Copy, PartialEq, Eq, Structural)]
pub struct VirtualFsConfig {
    /// FUSE entry cache timeout.
    pub entry_timeout: Span,
    /// FUSE attribute cache timeout.
    pub attr_timeout: Span,
    /// Cache policy.
    pub cache_policy: CachePolicy,
    /// Enable writeback caching.
    pub writeback: bool,
}

/// The configuration of a mount that asks for nothing special.
pub open spec fn default_config() -> VirtualFsConfig {
    VirtualFsConfig {
        entry_timeout: Span { secs: 1, nanos: 0 },
        attr_timeout: Span { secs: 1, nanos: 0 },
        cache_policy: CachePolicy::Auto,
        writeback: false,
    }
}

impl Default for VirtualFsConfig {
    fn default() -> (r: VirtualFsConfig)
        ensures
            r == default_config(),
    {
        VirtualFsConfig {
            entry_timeout: Span::from_secs(1),
            attr_timeout: Span::from_secs(1),
            cache_policy: CachePolicy::Auto,
            writeback: false,
        }
    }
}

} // verus!
