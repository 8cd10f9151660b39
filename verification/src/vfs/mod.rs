//! Path-based programmable virtual filesystem.
//!
//! [`VirtualFs`] is a scaffold that owns every FUSE-shaped concern (inode
//! allocation, the inode/path map, open-handle tables, lookup reference
//! counting, `stat64`/`Entry` construction and readdir cookie paging) and
//! delegates the *semantics* of each operation to a [`PathFs`] provider keyed by
//! absolute guest path.
//!
//! `VirtualFs` is keyed purely by path, so hard links are not supported: a path
//! API cannot express two names sharing one inode.
//!
//! Each operation resolves its inode or handle to a path, asks the provider, and
//! acts on the reply. The part that acts on the reply stands in a function of its
//! own, which takes the reply as an argument.

pub mod create_ops;
pub mod dir_ops;
pub mod file_ops;
pub mod metadata;
pub mod remove_ops;
pub mod xattr_ops;

use crate::abi::{
    Entry, StatVfs64, FS_ASYNC_READ, FS_BIG_WRITES, FS_DONT_MASK, FS_DO_READDIRPLUS, FS_MAX_PAGES,
    FS_PARALLEL_DIROPS, FS_READDIRPLUS_AUTO, FS_WRITEBACK_CACHE, OPEN_DIRECT_IO,
};
use crate::bytes::copy_bytes;
use crate::config::{default_config, CachePolicy, VirtualFsConfig};
use crate::dirent::listable;
use crate::error::FsError;
use crate::invariants::{
    consistent, forgetting_keeps_consistency, initial_state_is_consistent, kept, numbered, rooted,
};
use crate::name_validation::{
    memfs_name_check, path_check, validate_memfs_name, validate_provider_path_bytes,
};
use crate::path_fs::{PathFs, VAttr};
use crate::paths::{is_tombstone, join, joined, shaped, tombstoned, tombstones_are_private};
use crate::platform::{ebadf, enosys, estale, LINUX_EBADF, LINUX_ENOSYS, LINUX_ESTALE};
use crate::replies::replied_statfs;
use crate::stat::{is_stat, vattr_to_stat};
use crate::tables::{forgotten, initial_state, inode_at, io_path, FsState, Tables};
use vstd::prelude::*;

verus! {

/// The bytes of a result.
pub open spec fn bytes_of(r: Result<Vec<u8>, FsError>) -> Result<Seq<u8>, FsError> {
    match r {
        Ok(v) => Ok(v@),
        Err(e) => Err(e),
    }
}

/// The path of an inode: `EBADF` where the inode is unknown, `ESTALE` where its
/// name is gone.
pub open spec fn path_lookup(s: FsState, ino: u64) -> Result<Seq<u8>, FsError> {
    if !s.nodes.contains_key(ino) {
        Err(FsError::Os(LINUX_EBADF))
    } else if tombstoned(s.nodes[ino].path) {
        Err(FsError::Os(LINUX_ESTALE))
    } else {
        Ok(s.nodes[ino].path)
    }
}

/// The path of the child `name` of the directory `parent`, as far as that is a
/// valid name and a valid path.
pub open spec fn child_lookup(s: FsState, parent: u64, name: Seq<u8>) -> Result<Seq<u8>, FsError> {
    match memfs_name_check(name) {
        Err(e) => Err(e),
        Ok(_) => match path_lookup(s, parent) {
            Err(e) => Err(e),
            Ok(dir) => match path_check(joined(dir, name)) {
                Err(e) => Err(e),
                Ok(_) => Ok(joined(dir, name)),
            },
        },
    }
}

/// The path for I/O on an open file handle, or `EBADF`.
pub open spec fn handle_lookup(s: FsState, handle: u64) -> Result<Seq<u8>, FsError> {
    match io_path(s, handle) {
        Some(path) => Ok(path),
        None => Err(FsError::Os(LINUX_EBADF)),
    }
}

/// Whether `e` is the entry of the inode `ino` with the attributes `attr`.
pub open spec fn is_entry(cfg: VirtualFsConfig, ino: u64, attr: VAttr, e: Entry) -> bool {
    &&& e.inode == ino
    &&& e.generation == 0
    &&& is_stat(ino, attr, e.attr)
    &&& e.attr_flags == 0
    &&& e.attr_timeout == cfg.attr_timeout
    &&& e.entry_timeout == cfg.entry_timeout
}

/// The open options for a cache policy. `always` is the flag that means "keep
/// cache" for the kind of node.
pub open spec fn cache_flags(cfg: VirtualFsConfig, always: u32) -> u32 {
    match cfg.cache_policy {
        CachePolicy::Never => OPEN_DIRECT_IO,
        CachePolicy::Auto => 0,
        CachePolicy::Always => always,
    }
}

/// The session options taken of those the kernel is capable of.
pub open spec fn session_options(cfg: VirtualFsConfig, capable: u32) -> u32 {
    (capable & (FS_DONT_MASK | FS_BIG_WRITES | FS_ASYNC_READ | FS_PARALLEL_DIROPS | FS_MAX_PAGES))
        | (if capable & FS_DO_READDIRPLUS != 0 {
        FS_DO_READDIRPLUS | FS_READDIRPLUS_AUTO
    } else {
        0
    }) | (if cfg.writeback && capable & FS_WRITEBACK_CACHE != 0 {
        FS_WRITEBACK_CACHE
    } else {
        0
    })
}

/// Path-based programmable virtual filesystem.
///
/// Construct with [`VirtualFs::new`] (default configuration) or
/// [`VirtualFs::with_config`], passing any [`PathFs`] provider.
pub struct VirtualFs<P: PathFs> {
    provider: P,
    tables: Tables,
    cfg: VirtualFsConfig,
}

impl<P: PathFs> View for VirtualFs<P> {
    type V = FsState;

    closed spec fn view(&self) -> FsState {
        self.tables@
    }
}

impl<P: PathFs> VirtualFs<P> {
    /// The semantic backend.
    pub closed spec fn backend(&self) -> P {
        self.provider
    }

    /// The configuration.
    pub closed spec fn config(&self) -> VirtualFsConfig {
        self.cfg
    }

    /// Whether two states of a file system have the same backend and
    /// configuration.
    pub open spec fn same_setup(&self, other: &VirtualFs<P>) -> bool {
        self.backend() == other.backend() && self.config() == other.config()
    }

    /// Create a `VirtualFs` over `provider` with default configuration.
    pub fn new(provider: P) -> (r: Result<VirtualFs<P>, FsError>)
        ensures
            r matches Ok(fs) && fs@ == initial_state() && fs.backend() == provider && fs.config()
                == default_config() && consistent(fs@) && numbered(fs@) && rooted(fs@),
    {
        Self::with_config(provider, VirtualFsConfig::default())
    }

    /// Create a `VirtualFs` over `provider` with the given configuration.
    pub fn with_config(provider: P, cfg: VirtualFsConfig) -> (r: Result<VirtualFs<P>, FsError>)
        ensures
            r matches Ok(fs) && fs@ == initial_state() && fs.backend() == provider && fs.config()
                == cfg && consistent(fs@) && numbered(fs@) && rooted(fs@),
    {
        proof {
            initial_state_is_consistent();
        }
        Ok(VirtualFs { provider, tables: Tables::new(), cfg })
    }

    /// Borrow the underlying provider.
    pub fn provider(&self) -> (r: &P)
        ensures
            *r == self.backend(),
    {
        &self.provider
    }

    /// The configuration in use.
    pub(crate) fn settings(&self) -> (r: VirtualFsConfig)
        ensures
            r == self.config(),
    {
        self.cfg
    }

    /// Borrow the tables.
    pub(crate) fn tables(&self) -> (r: &Tables)
        ensures
            r@ == self@,
    {
        &self.tables
    }

    /// Borrow the tables for a change.
    pub(crate) fn tables_mut(&mut self) -> (r: &mut Tables)
        ensures
            r@ == old(self)@,
            final(self)@ == final(r)@,
            final(self).same_setup(old(self)),
    {
        &mut self.tables
    }

    /// Negotiate the session options.
    pub fn init(&self, capable: u32) -> (r: Result<u32, FsError>)
        ensures
            r == Ok::<u32, FsError>(session_options(self.config(), capable)),
    {
        let wanted = FS_DONT_MASK | FS_BIG_WRITES | FS_ASYNC_READ | FS_PARALLEL_DIROPS
            | FS_MAX_PAGES;
        let plus: u32 = if capable & FS_DO_READDIRPLUS != 0 {
            FS_DO_READDIRPLUS | FS_READDIRPLUS_AUTO
        } else {
            0
        };
        let writeback: u32 = if self.cfg.writeback && capable & FS_WRITEBACK_CACHE != 0 {
            FS_WRITEBACK_CACHE
        } else {
            0
        };
        Ok((capable & wanted) | plus | writeback)
    }

    /// Tear down inode and handle tables. The FUSE session must be quiesced
    /// before this is called.
    pub fn destroy(&mut self)
        ensures
            final(self).same_setup(old(self)),
            final(self)@ == (FsState {
                nodes: Map::empty(),
                files: Map::empty(),
                dirs: Map::empty(),
                ..old(self)@
            }),
            consistent(final(self)@),
    {
        self.tables.clear();
    }

    /// Give up `count` lookup references of an inode, evicting it when none is
    /// left.
    pub fn forget(&mut self, ino: u64, count: u64)
        ensures
            final(self).same_setup(old(self)),
            final(self)@ == forgotten(old(self)@, ino, count),
            kept(old(self)@, final(self)@),
    {
        proof {
            if consistent(self@) {
                forgetting_keeps_consistency(self@, ino, count);
            }
        }
        self.tables.forget_one(ino, count);
    }

    /// Give up the lookup references of several inodes, one after the other.
    pub fn batch_forget(&mut self, requests: &Vec<(u64, u64)>)
        ensures
            final(self).same_setup(old(self)),
            final(self)@ == all_forgotten(old(self)@, requests@),
            kept(old(self)@, final(self)@),
    {
        let mut i: usize = 0;
        assert(requests@.take(0) =~= Seq::<(u64, u64)>::empty());
        while i < requests.len()
            invariant
                i <= requests.len(),
                self.same_setup(old(self)),
                self@ == all_forgotten(old(self)@, requests@.take(i as int)),
                kept(old(self)@, self@),
                self@.next_inode == old(self)@.next_inode,
            decreases requests.len() - i,
        {
            let (ino, count) = requests[i];
            assert(requests@.take(i + 1).drop_last() =~= requests@.take(i as int));
            self.forget(ino, count);
            i += 1;
        }
        assert(requests@.take(requests@.len() as int) =~= requests@);
    }

    /// Hard links cannot be expressed by a path-keyed provider.
    pub fn link(&self, _ino: u64, _newparent: u64, _newname: &[u8]) -> (r: Result<Entry, FsError>)
        ensures
            r == Err::<Entry, FsError>(FsError::Os(LINUX_ENOSYS)),
    {
        Err(enosys())
    }

    /// Report filesystem statistics.
    pub fn statfs(&self) -> (r: Result<StatVfs64, FsError>)
        ensures
            replied_statfs(self.backend(), r),
    {
        let r = self.provider.statfs();
        assert(call_ensures(P::statfs, (&self.provider,), r));
        r
    }

    /// FUSE open options for the cache policy. `always` is the policy-specific
    /// "keep cache" flag (`KEEP_CACHE` for files, `CACHE_DIR` for directories).
    pub fn cache_options(&self, always: u32) -> (r: u32)
        ensures
            r == cache_flags(self.config(), always),
    {
        match self.cfg.cache_policy {
            CachePolicy::Never => OPEN_DIRECT_IO,
            CachePolicy::Auto => 0,
            CachePolicy::Always => always,
        }
    }

    /// The current absolute path of an inode.
    ///
    /// An inode the kernel still references after its name was removed or taken
    /// over by a rename stays known, so that FORGET can clean it up, but has no
    /// path: resolving it is `ESTALE`.
    pub fn path_of(&self, ino: u64) -> (r: Result<Vec<u8>, FsError>)
        ensures
            match r {
                Ok(path) => path_lookup(self@, ino) == Ok::<Seq<u8>, FsError>(path@),
                Err(e) => path_lookup(self@, ino) == Err::<Seq<u8>, FsError>(e),
            },
    {
        match self.tables.node_path(ino) {
            None => Err(ebadf()),
            Some(path) => if is_tombstone(path.as_slice()) {
                Err(estale())
            } else {
                Ok(copy_bytes(path.as_slice()))
            },
        }
    }

    /// The inode that is interned for `path`, if any.
    pub fn inode_of(&self, path: &[u8]) -> (r: Option<u64>)
        ensures
            r == inode_at(self@.nodes, path@),
    {
        self.tables.find(path)
    }

    /// Resolve the guest path for an open file handle, or `EBADF`.
    pub fn file_handle_path(&self, handle: u64) -> (r: Result<Vec<u8>, FsError>)
        ensures
            match r {
                Ok(path) => handle_lookup(self@, handle) == Ok::<Seq<u8>, FsError>(path@),
                Err(e) => handle_lookup(self@, handle) == Err::<Seq<u8>, FsError>(e),
            },
    {
        match self.tables.file_handle_path(handle) {
            Some(path) => Ok(path),
            None => Err(ebadf()),
        }
    }

    /// Validate `name` and resolve the absolute path of `parent`'s child named
    /// `name`. Shared by every operation that addresses a named child.
    pub fn child_path(&self, parent: u64, name: &[u8]) -> (r: Result<Vec<u8>, FsError>)
        ensures
            match r {
                Ok(path) => child_lookup(self@, parent, name@) == Ok::<Seq<u8>, FsError>(path@),
                Err(e) => child_lookup(self@, parent, name@) == Err::<Seq<u8>, FsError>(e),
            },
    {
        match validate_memfs_name(name) {
            Err(e) => Err(e),
            Ok(_) => match self.path_of(parent) {
                Err(e) => Err(e),
                Ok(dir) => {
                    let path = join(dir.as_slice(), name);
                    match validate_provider_path_bytes(path.as_slice()) {
                        Err(e) => Err(e),
                        Ok(_) => Ok(path),
                    }
                },
            },
        }
    }

    /// Build a FUSE `Entry` for an interned node from provider attributes.
    pub fn build_entry(&self, ino: u64, attr: &VAttr) -> (r: Entry)
        ensures
            is_entry(self.config(), ino, *attr, r),
    {
        Entry {
            inode: ino,
            generation: 0,
            attr: vattr_to_stat(ino, attr),
            attr_flags: 0,
            attr_timeout: self.cfg.attr_timeout,
            entry_timeout: self.cfg.entry_timeout,
        }
    }
}

/// The state after several references were given up, one after the other.
pub open spec fn all_forgotten(s: FsState, requests: Seq<(u64, u64)>) -> FsState
    decreases requests.len(),
{
    if requests.len() == 0 {
        s
    } else {
        forgotten(
            all_forgotten(s, requests.drop_last()),
            requests.last().0,
            requests.last().1,
        )
    }
}

/// In a consistent state, an inode resolves to a path of the shape of a guest
/// path or not at all, and so does a child: nothing leads out of the tree.
pub proof fn resolved_paths_are_shaped(s: FsState, ino: u64, name: Seq<u8>)
    requires
        consistent(s),
    ensures
        path_lookup(s, ino) matches Ok(path) ==> shaped(path),
        child_lookup(s, ino, name) matches Ok(path) ==> shaped(path) && path.len() > 1
            && path_check(path) is Ok,
{
    if s.nodes.contains_key(ino) {
        tombstones_are_private(s.nodes[ino].path, ino, ino);
    }
}

/// A name that a listing of a directory may show can be looked up there, and no
/// other name can: listing and looking up agree.
pub proof fn lookup_accepts_what_listings_show(s: FsState, parent: u64, name: Seq<u8>)
    requires
        path_lookup(s, parent) is Ok,
    ensures
        child_lookup(s, parent, name) is Ok <==> listable(path_lookup(s, parent)->Ok_0, name),
        child_lookup(s, parent, name) matches Ok(path) ==> path == joined(
            path_lookup(s, parent)->Ok_0,
            name,
        ),
{
    let dir = path_lookup(s, parent)->Ok_0;
    let path = joined(dir, name);
    if name.contains(0) {
        let i = choose|i: int| 0 <= i < name.len() && name[i] == 0;
        assert(path[path.len() - name.len() + i] == 0);
        assert(path.contains(0));
    }
}

/// In a consistent state, I/O on an open file goes to a path of the shape of a
/// guest path, also after its name is gone.
pub proof fn io_paths_are_shaped(s: FsState, handle: u64)
    requires
        consistent(s),
    ensures
        handle_lookup(s, handle) matches Ok(path) ==> shaped(path),
        handle_lookup(s, handle) is Ok <==> s.files.contains_key(handle),
{
    if s.files.contains_key(handle) {
        let ino = s.files[handle].inode;
        if s.nodes.contains_key(ino) {
            tombstones_are_private(s.nodes[ino].path, ino, ino);
        }
    }
}

} // verus!
