//! The [`PathFs`] provider trait and its portable supporting types.
//!
//! A provider is the *semantic* half of a programmable filesystem: it answers
//! operations addressed by **absolute guest path** and is free to back them with
//! anything. The [`VirtualFs`](crate::vfs::VirtualFs) scaffold owns everything
//! FUSE-shaped and translates each request into one of the calls below.
//! Providers never see inodes or handles.
//!
//! Paths are absolute, `/`-separated, NUL-free byte strings beginning with `/`.
//! Errors propagate to the guest verbatim as a Linux errno; an error without an
//! errno is surfaced as `EIO`.

use crate::abi::StatVfs64;
use crate::bytes::{dot, dotdot, is_dot, is_dotdot};
use crate::error::FsError;
use crate::name_validation::{readdir_name_check, validate_readdir_name};
use crate::platform::{
    eexist, eio, enosys, enotdir, enotempty, DIRENT_BLK, DIRENT_CHR, DIRENT_DIR, DIRENT_FIFO,
    DIRENT_LNK, DIRENT_REG, DIRENT_SOCK, LINUX_EEXIST, LINUX_EIO, LINUX_ENOSYS, LINUX_ENOTDIR,
    LINUX_ENOTEMPTY, MODE_BLK, MODE_CHR, MODE_DIR, MODE_FIFO, MODE_LNK, MODE_REG, MODE_SOCK,
    MODE_TYPE_MASK,
};
use crate::time::VTime;
use vstd::prelude::*;

verus! {

/// The kind of a filesystem node.
#[derive(Debug, Clone, Copy, PartialEq, Eq, Structural)]
pub enum NodeKind {
    /// Regular file.
    File,
    /// Directory.
    Dir,
    /// Symbolic link.
    Symlink,
    /// Character device.
    Char,
    /// Block device.
    Block,
    /// Named pipe (FIFO).
    Fifo,
    /// Unix domain socket.
    Socket,
}

impl NodeKind {
    /// The `S_IF*` type bits of a kind.
    pub open spec fn spec_type_bits(self) -> u32 {
        match self {
            NodeKind::File => MODE_REG,
            NodeKind::Dir => MODE_DIR,
            NodeKind::Symlink => MODE_LNK,
            NodeKind::Char => MODE_CHR,
            NodeKind::Block => MODE_BLK,
            NodeKind::Fifo => MODE_FIFO,
            NodeKind::Socket => MODE_SOCK,
        }
    }

    /// The `S_IF*` type bits for this kind, as a mode value (Linux values, the
    /// guest's, on every host platform).
    #[verifier::when_used_as_spec(spec_type_bits)]
    pub fn type_bits(self) -> (r: u32)
        ensures
            r == self.spec_type_bits(),
    {
        match self {
            NodeKind::File => MODE_REG,
            NodeKind::Dir => MODE_DIR,
            NodeKind::Symlink => MODE_LNK,
            NodeKind::Char => MODE_CHR,
            NodeKind::Block => MODE_BLK,
            NodeKind::Fifo => MODE_FIFO,
            NodeKind::Socket => MODE_SOCK,
        }
    }

    /// The `d_type` value of a kind.
    pub open spec fn spec_dirent_type(self) -> u32 {
        match self {
            NodeKind::File => DIRENT_REG,
            NodeKind::Dir => DIRENT_DIR,
            NodeKind::Symlink => DIRENT_LNK,
            NodeKind::Char => DIRENT_CHR,
            NodeKind::Block => DIRENT_BLK,
            NodeKind::Fifo => DIRENT_FIFO,
            NodeKind::Socket => DIRENT_SOCK,
        }
    }

    /// The directory-entry `d_type` value for this kind.
    #[verifier::when_used_as_spec(spec_dirent_type)]
    pub fn dirent_type(self) -> (r: u32)
        ensures
            r == self.spec_dirent_type(),
    {
        match self {
            NodeKind::File => DIRENT_REG,
            NodeKind::Dir => DIRENT_DIR,
            NodeKind::Symlink => DIRENT_LNK,
            NodeKind::Char => DIRENT_CHR,
            NodeKind::Block => DIRENT_BLK,
            NodeKind::Fifo => DIRENT_FIFO,
            NodeKind::Socket => DIRENT_SOCK,
        }
    }

    /// Recover a kind from `S_IF*` type bits, if recognized.
    pub fn from_mode(mode: u32) -> (r: Option<NodeKind>)
        ensures
            r == kind_of_mode(mode),
    {
        proof {
            if let Some(kind) = kind_of_mode(mode) {
                assert(kind.type_bits() == mode & MODE_TYPE_MASK);
            }
            assert(NodeKind::File.type_bits() == MODE_REG);
            assert(NodeKind::Dir.type_bits() == MODE_DIR);
            assert(NodeKind::Symlink.type_bits() == MODE_LNK);
            assert(NodeKind::Char.type_bits() == MODE_CHR);
            assert(NodeKind::Block.type_bits() == MODE_BLK);
            assert(NodeKind::Fifo.type_bits() == MODE_FIFO);
            assert(NodeKind::Socket.type_bits() == MODE_SOCK);
        }
        match mode & MODE_TYPE_MASK {
            MODE_REG => Some(NodeKind::File),
            MODE_DIR => Some(NodeKind::Dir),
            MODE_LNK => Some(NodeKind::Symlink),
            MODE_CHR => Some(NodeKind::Char),
            MODE_BLK => Some(NodeKind::Block),
            MODE_FIFO => Some(NodeKind::Fifo),
            MODE_SOCK => Some(NodeKind::Socket),
            _ => None,
        }
    }
}

/// The kind whose type bits a mode carries, if there is one.
pub open spec fn kind_of_mode(mode: u32) -> Option<NodeKind> {
    if exists|kind: NodeKind| #[trigger] kind.type_bits() == mode & MODE_TYPE_MASK {
        Some(choose|kind: NodeKind| #[trigger] kind.type_bits() == mode & MODE_TYPE_MASK)
    } else {
        None
    }
}

/// The kind is recovered from any mode that carries its type bits, whatever the
/// permission bits.
pub proof fn kinds_round_trip_through_modes(kind: NodeKind, perm: u32)
    ensures
        kind_of_mode(kind.type_bits() | (perm & 0o7777)) == Some(kind),
{
    let bits = kind.type_bits();
    assert((bits | (perm & 0o7777u32)) & 0o170000u32 == bits) by (bit_vector)
        requires
            bits == 0o100000u32 || bits == 0o040000u32 || bits == 0o120000u32 || bits == 0o020000u32
                || bits == 0o060000u32 || bits == 0o010000u32 || bits == 0o140000u32,
    ;
    let found = kind_of_mode(bits | (perm & 0o7777))->0;
    assert(found.type_bits() == bits);
}

/// Portable attributes for a node.
///
/// The scaffold translates them to a `stat64`, filling in the current time for
/// any missing timestamp and computing the block count from the size.
#[derive(Debug, Clone, Copy, PartialEq, Eq)]
pub struct VAttr {
    /// Node kind. Combined with `mode` to form the full `st_mode`.
    pub kind: NodeKind,
    /// Permission bits (e.g. `0o644`). Type bits are derived from `kind`.
    pub mode: u32,
    /// Size in bytes (0 for non-regular files).
    pub size: u64,
    /// Owner user id.
    pub uid: u32,
    /// Owner group id.
    pub gid: u32,
    /// Hard-link count. `None` lets the scaffold default it (2 for directories,
    /// 1 otherwise).
    pub nlink: Option<u64>,
    /// Device number for `Char`/`Block` nodes; ignored otherwise.
    pub rdev: u32,
    /// Last-access time; `None` means the current time.
    pub atime: Option<VTime>,
    /// Last-modification time; `None` means the current time.
    pub mtime: Option<VTime>,
    /// Last status-change time; `None` means the current time.
    pub ctime: Option<VTime>,
}

/// Attributes with no owner, no timestamps and default link count.
pub open spec fn fresh_attr(kind: NodeKind, mode: u32, size: u64) -> VAttr {
    VAttr {
        kind,
        mode,
        size,
        uid: 0,
        gid: 0,
        nlink: None,
        rdev: 0,
        atime: None,
        mtime: None,
        ctime: None,
    }
}

impl VAttr {
    /// Construct a regular-file attr with the given permission bits and size.
    pub fn file(mode: u32, size: u64) -> (r: VAttr)
        ensures
            r == fresh_attr(NodeKind::File, mode, size),
    {
        VAttr::new(NodeKind::File, mode, size)
    }

    /// Construct a directory attr with the given permission bits.
    pub fn dir(mode: u32) -> (r: VAttr)
        ensures
            r == fresh_attr(NodeKind::Dir, mode, 0),
    {
        VAttr::new(NodeKind::Dir, mode, 0)
    }

    /// Construct an attr of the given kind with current-time stamps and
    /// uid/gid 0.
    pub fn new(kind: NodeKind, mode: u32, size: u64) -> (r: VAttr)
        ensures
            r == fresh_attr(kind, mode, size),
    {
        VAttr {
            kind,
            mode,
            size,
            uid: 0,
            gid: 0,
            nlink: None,
            rdev: 0,
            atime: None,
            mtime: None,
            ctime: None,
        }
    }
}

/// A single entry returned by [`PathFs::readdir`].
///
/// The `.` and `..` entries are added by the scaffold and must **not** be
/// listed.
#[derive(Debug, Clone)]
pub struct VDirEntry {
    /// Entry name (a single path component; no `/`).
    pub name: Vec<u8>,
    /// Entry kind, used for the directory-entry `d_type`.
    pub kind: NodeKind,
}

/// The mathematical content of a [`VDirEntry`].
pub struct VDirEntryV {
    pub name: Seq<u8>,
    pub kind: NodeKind,
}

impl View for VDirEntry {
    type V = VDirEntryV;

    open spec fn view(&self) -> VDirEntryV {
        VDirEntryV { name: self.name@, kind: self.kind }
    }
}

impl VDirEntry {
    /// Construct an entry from a name and kind.
    pub fn new(name: Vec<u8>, kind: NodeKind) -> (r: VDirEntry)
        ensures
            r@ == (VDirEntryV { name: name@, kind }),
    {
        VDirEntry { name, kind }
    }
}

/// The contents of a listing.
pub open spec fn entry_views(entries: Seq<VDirEntry>) -> Seq<VDirEntryV> {
    Seq::new(entries.len(), |i: int| entries[i]@)
}

/// Whether a listing shows a name that the guest would see.
pub open spec fn lists_visible(entries: Seq<VDirEntryV>) -> bool {
    exists|i: int|
        0 <= i < entries.len() && readdir_name_check(#[trigger] entries[i].name) is Ok
}

/// Whether a listing holds a name, other than `.` and `..`, that the guest
/// could not see.
pub open spec fn lists_invalid(entries: Seq<VDirEntryV>) -> bool {
    exists|i: int|
        {
            &&& 0 <= i < entries.len()
            &&& #[trigger] entries[i].name != dot()
            &&& entries[i].name != dotdot()
            &&& readdir_name_check(entries[i].name) is Err
        }
}

/// The verdict on removing a directory with the given listing.
pub open spec fn rmdir_check(entries: Seq<VDirEntryV>) -> Result<(), FsError> {
    if lists_visible(entries) {
        Err(FsError::Os(LINUX_ENOTEMPTY))
    } else if lists_invalid(entries) {
        Err(FsError::Os(LINUX_EIO))
    } else {
        Ok(())
    }
}

/// Enforce the scaffold's rmdir emptiness rules on a full directory listing.
pub fn check_dir_empty_for_rmdir(entries: &[VDirEntry]) -> (r: Result<(), FsError>)
    ensures
        r == rmdir_check(entry_views(entries@)),
{
    let ghost listed = entry_views(entries@);
    let mut visible: bool = false;
    let mut has_invalid: bool = false;
    let mut i: usize = 0;
    while i < entries.len()
        invariant
            i <= entries.len(),
            listed == entry_views(entries@),
            visible ==> lists_visible(listed),
            has_invalid ==> lists_invalid(listed),
            forall|j: int|
                0 <= j < i ==> {
                    &&& !visible ==> readdir_name_check(#[trigger] listed[j].name) is Err
                    &&& !has_invalid && readdir_name_check(listed[j].name) is Err
                        ==> listed[j].name == dot() || listed[j].name == dotdot()
                },
        decreases entries.len() - i,
    {
        let name = entries[i].name.as_slice();
        assert(listed[i as int].name == name@);
        if is_dot(name) || is_dotdot(name) {
        } else if validate_readdir_name(name).is_ok() {
            visible = true;
        } else {
            has_invalid = true;
        }
        i += 1;
    }
    if visible {
        return Err(enotempty());
    }
    if has_invalid {
        return Err(eio());
    }
    Ok(())
}

/// Linux `RENAME_NOREPLACE` flag.
pub const RENAME_NOREPLACE: u32 = 1;

/// Linux `RENAME_EXCHANGE` flag.
pub const RENAME_EXCHANGE: u32 = 2;

/// A path-addressed filesystem backend.
///
/// Implement the required methods to expose a readable, navigable tree;
/// override the provided methods to add writes, links, xattrs, and a tuned
/// `statfs`. All paths are absolute and begin with `/`; the root is `/`.
///
/// The replies of an implementation are its own business: nothing is promised
/// of them, and the scaffold is correct for every reply. What is stated here is
/// what the provided methods do.
pub trait PathFs: Send + Sync {
    /// Return attributes for the node at `path`, or `ENOENT` if absent.
    fn getattr(&self, path: &[u8]) -> Result<VAttr, FsError>;

    /// Fetch attributes for several paths at once, returning one result per path
    /// in order. The outer `Result` is a transport-level failure; the inner one
    /// is that path's own outcome. The default asks for each path in turn.
    fn getattr_many(&self, paths: &[&[u8]]) -> (r: Result<Vec<Result<VAttr, FsError>>, FsError>)
        default_ensures
            r matches Ok(replies) && replies.len() == paths.len() && forall|i: int|
                0 <= i < paths.len() ==> call_ensures(
                    Self::getattr,
                    (self, paths[i]),
                    #[trigger] replies@[i],
                ),
    {
        let mut replies: Vec<Result<VAttr, FsError>> = Vec::new();
        let mut i: usize = 0;
        while i < paths.len()
            invariant
                i <= paths.len(),
                replies.len() == i,
                forall|j: int|
                    0 <= j < i ==> #[trigger] call_ensures(
                        Self::getattr,
                        (self, paths[j]),
                        replies[j],
                    ),
            decreases paths.len() - i,
        {
            replies.push(self.getattr(paths[i]));
            i += 1;
        }
        Ok(replies)
    }

    /// List the children of the directory at `path` (excluding `.`/`..`).
    fn readdir(&self, path: &[u8]) -> Result<Vec<VDirEntry>, FsError>;

    /// Read up to `size` bytes from the file at `path` starting at `offset`.
    ///
    /// A short read signals end-of-file; an empty one means EOF.
    fn read(&self, path: &[u8], offset: u64, size: u32) -> Result<Vec<u8>, FsError>;

    /// Write `data` to the file at `path` starting at `offset`, returning the
    /// number of bytes accepted. Default: `ENOSYS` (read-only filesystem).
    fn write(&self, path: &[u8], offset: u64, data: &[u8]) -> (r: Result<usize, FsError>)
        default_ensures
            r == Err::<usize, FsError>(FsError::Os(LINUX_ENOSYS)),
    {
        Err(enosys())
    }

    /// Create a regular file (or special node per `attr.kind`) at `path`.
    /// Default: `ENOSYS`.
    fn create(&self, path: &[u8], attr: &VAttr) -> (r: Result<VAttr, FsError>)
        default_ensures
            r == Err::<VAttr, FsError>(FsError::Os(LINUX_ENOSYS)),
    {
        Err(enosys())
    }

    /// Create a directory at `path` with the given permission bits. Default:
    /// `ENOSYS`.
    fn mkdir(&self, path: &[u8], mode: u32) -> (r: Result<VAttr, FsError>)
        default_ensures
            r == Err::<VAttr, FsError>(FsError::Os(LINUX_ENOSYS)),
    {
        Err(enosys())
    }

    /// Remove the file, symlink, special node, or **empty** directory at `path`.
    /// Default: `ENOSYS`.
    fn remove(&self, path: &[u8]) -> (r: Result<(), FsError>)
        default_ensures
            r == Err::<(), FsError>(FsError::Os(LINUX_ENOSYS)),
    {
        Err(enosys())
    }

    /// Remove an empty directory at `path`.
    ///
    /// The default checks that `path` is a directory and that it is empty (with
    /// the same name filtering as the scaffold), then calls
    /// [`remove`](Self::remove).
    fn rmdir(&self, path: &[u8]) -> (r: Result<(), FsError>)
        default_ensures
            exists|a: Result<VAttr, FsError>| #[trigger]
                call_ensures(Self::getattr, (self, path), a) && (match a {
                    Err(e) => r == Err::<(), FsError>(e),
                    Ok(attr) => if attr.kind != NodeKind::Dir {
                        r == Err::<(), FsError>(FsError::Os(LINUX_ENOTDIR))
                    } else {
                        exists|l: Result<Vec<VDirEntry>, FsError>| #[trigger]
                            call_ensures(Self::readdir, (self, path), l) && (match l {
                                Err(e) => r == Err::<(), FsError>(e),
                                Ok(entries) => match rmdir_check(entry_views(entries@)) {
                                    Err(e) => r == Err::<(), FsError>(e),
                                    Ok(_) => call_ensures(Self::remove, (self, path), r),
                                },
                            })
                    },
                }),
    {
        match self.getattr(path) {
            Err(e) => Err(e),
            Ok(attr) => {
                if attr.kind != NodeKind::Dir {
                    return Err(enotdir());
                }
                match self.readdir(path) {
                    Err(e) => Err(e),
                    Ok(entries) => match check_dir_empty_for_rmdir(entries.as_slice()) {
                        Err(e) => Err(e),
                        Ok(_) => self.remove(path),
                    },
                }
            },
        }
    }

    /// Rename `from` to `to`. Default: `ENOSYS`.
    fn rename(&self, from: &[u8], to: &[u8]) -> (r: Result<(), FsError>)
        default_ensures
            r == Err::<(), FsError>(FsError::Os(LINUX_ENOSYS)),
    {
        Err(enosys())
    }

    /// Rename `from` to `to`, honoring Linux `renameat2` flags when supported.
    ///
    /// The default rejects `RENAME_EXCHANGE` with `ENOSYS`, performs a
    /// best-effort `RENAME_NOREPLACE` pre-check, then calls
    /// [`rename`](Self::rename).
    fn rename_with_flags(&self, from: &[u8], to: &[u8], flags: u32) -> (r: Result<(), FsError>)
        default_ensures
            if flags & RENAME_EXCHANGE != 0 {
                r == Err::<(), FsError>(FsError::Os(LINUX_ENOSYS))
            } else if flags & RENAME_NOREPLACE != 0 {
                exists|a: Result<VAttr, FsError>| #[trigger]
                    call_ensures(Self::getattr, (self, to), a) && (match a {
                        Ok(_) => r == Err::<(), FsError>(FsError::Os(LINUX_EEXIST)),
                        Err(_) => call_ensures(Self::rename, (self, from, to), r),
                    })
            } else {
                call_ensures(Self::rename, (self, from, to), r)
            },
    {
        if flags & RENAME_EXCHANGE != 0 {
            return Err(enosys());
        }
        if flags & RENAME_NOREPLACE != 0 && self.getattr(to).is_ok() {
            return Err(eexist());
        }
        self.rename(from, to)
    }

    /// Apply the subset of `attr` selected by `valid` to the node at `path`,
    /// returning the resulting attributes. Default: `ENOSYS`.
    fn setattr(&self, path: &[u8], attr: &VAttr, valid: u32) -> (r: Result<VAttr, FsError>)
        default_ensures
            r == Err::<VAttr, FsError>(FsError::Os(LINUX_ENOSYS)),
    {
        Err(enosys())
    }

    /// Create a symbolic link at `path` pointing to `target`. Default: `ENOSYS`.
    fn symlink(&self, path: &[u8], target: &[u8]) -> (r: Result<VAttr, FsError>)
        default_ensures
            r == Err::<VAttr, FsError>(FsError::Os(LINUX_ENOSYS)),
    {
        Err(enosys())
    }

    /// Return the target of the symbolic link at `path`. Default: `ENOSYS`.
    fn readlink(&self, path: &[u8]) -> (r: Result<Vec<u8>, FsError>)
        default_ensures
            r == Err::<Vec<u8>, FsError>(FsError::Os(LINUX_ENOSYS)),
    {
        Err(enosys())
    }

    /// Set extended attribute `name` on `path`. Default: `ENOSYS`.
    fn setxattr(&self, path: &[u8], name: &[u8], value: &[u8], flags: u32) -> (r: Result<
        (),
        FsError,
    >)
        default_ensures
            r == Err::<(), FsError>(FsError::Os(LINUX_ENOSYS)),
    {
        Err(enosys())
    }

    /// Get extended attribute `name` from `path`. Default: `ENOSYS`.
    fn getxattr(&self, path: &[u8], name: &[u8]) -> (r: Result<Vec<u8>, FsError>)
        default_ensures
            r == Err::<Vec<u8>, FsError>(FsError::Os(LINUX_ENOSYS)),
    {
        Err(enosys())
    }

    /// List the extended-attribute names on `path`. Default: empty list.
    fn listxattr(&self, path: &[u8]) -> (r: Result<Vec<Vec<u8>>, FsError>)
        default_ensures
            r matches Ok(names) && names.len() == 0,
    {
        Ok(Vec::new())
    }

    /// Remove extended attribute `name` from `path`. Default: `ENOSYS`.
    fn removexattr(&self, path: &[u8], name: &[u8]) -> (r: Result<(), FsError>)
        default_ensures
            r == Err::<(), FsError>(FsError::Os(LINUX_ENOSYS)),
    {
        Err(enosys())
    }

    /// Flush buffered writes for the file at `path`. Default: success.
    fn flush(&self, path: &[u8]) -> (r: Result<(), FsError>)
        default_ensures
            r == Ok::<(), FsError>(()),
    {
        Ok(())
    }

    /// Sync the file at `path` to stable storage. Default: success.
    fn fsync(&self, path: &[u8], datasync: bool) -> (r: Result<(), FsError>)
        default_ensures
            r == Ok::<(), FsError>(()),
    {
        Ok(())
    }

    /// Refresh directory listing state for the directory at `path`. The scaffold
    /// calls this from `fsyncdir` before rebuilding an open handle's snapshot.
    /// Default: success.
    fn fsyncdir(&self, path: &[u8]) -> (r: Result<(), FsError>)
        default_ensures
            r == Ok::<(), FsError>(()),
    {
        Ok(())
    }

    /// Report filesystem statistics. Default: a generic unbounded volume.
    fn statfs(&self) -> (r: Result<StatVfs64, FsError>)
        default_ensures
            r == Ok::<StatVfs64, FsError>(generic_volume()),
    {
        Ok(default_statvfs())
    }
}

/// The statistics of a generic, effectively unbounded volume.
pub open spec fn generic_volume() -> StatVfs64 {
    StatVfs64 {
        f_bsize: 4096,
        f_frsize: 4096,
        f_blocks: 0,
        f_bfree: 0,
        f_bavail: 0,
        f_files: 0,
        f_ffree: 0,
        f_namemax: 255,
    }
}

/// A generic, effectively unbounded volume.
pub fn default_statvfs() -> (r: StatVfs64)
    ensures
        r == generic_volume(),
{
    StatVfs64 {
        f_bsize: 4096,
        f_frsize: 4096,
        f_blocks: 0,
        f_bfree: 0,
        f_bavail: 0,
        f_files: 0,
        f_ffree: 0,
        f_namemax: 255,
    }
}

} // verus!
