//! The plain values that cross the FUSE boundary: attributes, directory
//! entries, replies and flag sets.

use crate::time::Span;
use vstd::prelude::*;

verus! {

/// `setattr` selects the permission bits.
pub const SETATTR_MODE: u32 = 0x1;

/// `setattr` selects the owner.
pub const SETATTR_UID: u32 = 0x2;

/// `setattr` selects the group.
pub const SETATTR_GID: u32 = 0x4;

/// `setattr` selects the size.
pub const SETATTR_SIZE: u32 = 0x8;

/// `setattr` selects the access time.
pub const SETATTR_ATIME: u32 = 0x10;

/// `setattr` selects the modification time.
pub const SETATTR_MTIME: u32 = 0x20;

/// The access time is to be the current time.
pub const SETATTR_ATIME_NOW: u32 = 0x80;

/// The modification time is to be the current time.
pub const SETATTR_MTIME_NOW: u32 = 0x100;

/// `setattr` selects the status-change time.
pub const SETATTR_CTIME: u32 = 0x400;

/// `setattr` is to drop the set-user-id and set-group-id bits.
pub const SETATTR_KILL_SUIDGID: u32 = 0x800;

/// Every `setattr` selector the protocol knows.
pub const SETATTR_ALL: u32 = 0xdbf;

/// Open reply: bypass the guest page cache.
pub const OPEN_DIRECT_IO: u32 = 0x1;

/// Open reply: keep the guest page cache across opens.
pub const OPEN_KEEP_CACHE: u32 = 0x2;

/// Open reply: the guest may cache the directory listing.
pub const OPEN_CACHE_DIR: u32 = 0x8;

/// Session option: reads may be issued out of order.
pub const FS_ASYNC_READ: u32 = 0x1;

/// Session option: writes larger than one page.
pub const FS_BIG_WRITES: u32 = 0x20;

/// Session option: the guest does not apply the umask.
pub const FS_DONT_MASK: u32 = 0x40;

/// Session option: `readdirplus` is supported.
pub const FS_DO_READDIRPLUS: u32 = 0x2000;

/// Session option: the guest decides when to use `readdirplus`.
pub const FS_READDIRPLUS_AUTO: u32 = 0x4000;

/// Session option: the guest buffers writes.
pub const FS_WRITEBACK_CACHE: u32 = 0x1_0000;

/// Session option: lookups and listings of one directory may run in parallel.
pub const FS_PARALLEL_DIROPS: u32 = 0x4_0000;

/// Session option: the reply page limit is negotiated.
pub const FS_MAX_PAGES: u32 = 0x40_0000;

/// Node attributes in the layout of a Linux `stat64`.
#[derive(Debug, Clone, Copy, PartialEq, Eq, Structural)]
pub struct Stat64 {
    pub st_dev: u64,
    pub st_ino: u64,
    pub st_nlink: u64,
    pub st_mode: u32,
    pub st_uid: u32,
    pub st_gid: u32,
    pub st_rdev: u64,
    pub st_size: i64,
    pub st_blksize: i64,
    pub st_blocks: i64,
    pub st_atime: i64,
    pub st_atime_nsec: i64,
    pub st_mtime: i64,
    pub st_mtime_nsec: i64,
    pub st_ctime: i64,
    pub st_ctime_nsec: i64,
}

impl Stat64 {
    /// The attributes with every field zero.
    pub fn zeroed() -> (r: Stat64)
        ensures
            r == (Stat64 {
                st_dev: 0,
                st_ino: 0,
                st_nlink: 0,
                st_mode: 0,
                st_uid: 0,
                st_gid: 0,
                st_rdev: 0,
                st_size: 0,
                st_blksize: 0,
                st_blocks: 0,
                st_atime: 0,
                st_atime_nsec: 0,
                st_mtime: 0,
                st_mtime_nsec: 0,
                st_ctime: 0,
                st_ctime_nsec: 0,
            }),
    {
        Stat64 {
            st_dev: 0,
            st_ino: 0,
            st_nlink: 0,
            st_mode: 0,
            st_uid: 0,
            st_gid: 0,
            st_rdev: 0,
            st_size: 0,
            st_blksize: 0,
            st_blocks: 0,
            st_atime: 0,
            st_atime_nsec: 0,
            st_mtime: 0,
            st_mtime_nsec: 0,
            st_ctime: 0,
            st_ctime_nsec: 0,
        }
    }
}

/// The fields of a Linux `statx` that a `stat64` can hold.
#[derive(Debug, Clone, Copy, PartialEq, Eq, Structural)]
pub struct Statx {
    pub dev_major: u32,
    pub dev_minor: u32,
    pub ino: u64,
    pub nlink: u32,
    pub mode: u16,
    pub uid: u32,
    pub gid: u32,
    pub rdev_major: u32,
    pub rdev_minor: u32,
    pub size: u64,
    pub blksize: u32,
    pub blocks: u64,
    pub atime_sec: i64,
    pub atime_nsec: u32,
    pub mtime_sec: i64,
    pub mtime_nsec: u32,
    pub ctime_sec: i64,
    pub ctime_nsec: u32,
}

/// Volume statistics, as far as a provider can influence them.
#[derive(Debug, Clone, Copy, PartialEq, Eq, Structural)]
pub struct StatVfs64 {
    pub f_bsize: u64,
    pub f_frsize: u64,
    pub f_blocks: u64,
    pub f_bfree: u64,
    pub f_bavail: u64,
    pub f_files: u64,
    pub f_ffree: u64,
    pub f_namemax: u64,
}

/// The caller of an operation.
#[derive(Debug, Clone, Copy, PartialEq, Eq, Structural)]
pub struct Context {
    pub uid: u32,
    pub gid: u32,
    pub pid: i32,
}

/// The reply to an operation that resolves a name.
#[derive(Debug, Clone, Copy, PartialEq, Eq, Structural)]
pub struct Entry {
    pub inode: u64,
    pub generation: u64,
    pub attr: Stat64,
    pub attr_flags: u32,
    pub attr_timeout: Span,
    pub entry_timeout: Span,
}

/// One entry of a directory listing.
#[derive(Debug, Clone)]
pub struct DirEntry {
    pub ino: u64,
    pub offset: u64,
    pub type_: u32,
    pub name: Vec<u8>,
}

/// The mathematical content of a [`DirEntry`].
pub struct DirEntryV {
    pub ino: u64,
    pub offset: u64,
    pub type_: u32,
    pub name: Seq<u8>,
}

impl View for DirEntry {
    type V = DirEntryV;

    open spec fn view(&self) -> DirEntryV {
        DirEntryV { ino: self.ino, offset: self.offset, type_: self.type_, name: self.name@ }
    }
}

/// The reply to `getxattr`.
#[derive(Debug, Clone)]
pub enum GetxattrReply {
    /// The attribute value.
    Value(Vec<u8>),
    /// The size of the value, asked for with a zero buffer size.
    Count(u32),
}

/// The reply to `listxattr`.
#[derive(Debug, Clone)]
pub enum ListxattrReply {
    /// The attribute names, each followed by a NUL.
    Names(Vec<u8>),
    /// The size of the list, asked for with a zero buffer size.
    Count(u32),
}

} // verus!
