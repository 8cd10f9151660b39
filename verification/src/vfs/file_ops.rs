//! File operations: open, create, read, write, flush, fsync, fallocate, release
//! and lseek.

use super::create_ops::request_mode;
use super::{
    bytes_of, cache_flags, child_lookup, handle_lookup, is_entry, path_lookup,
    resolved_paths_are_shaped, VirtualFs,
};
use crate::abi::{Entry, OPEN_KEEP_CACHE, SETATTR_SIZE};
use crate::bytes::copy_bytes;
use crate::config::VirtualFsConfig;
use crate::error::FsError;
use crate::invariants::{
    consistent, handles_keep_consistency, kept, referencing_keeps_consistency,
};
use crate::path_fs::{fresh_attr, NodeKind, PathFs, VAttr};
use crate::paths::{parent_of, shaped};
use crate::platform::{
    efbig, einval, eio, eisdir, enxio, eopnotsupp, LINUX_EFBIG, LINUX_EINVAL, LINUX_EIO,
    LINUX_EISDIR, LINUX_ENOSYS, LINUX_ENXIO, LINUX_EOPNOTSUPP,
};
use crate::replies::{
    replied_create, replied_flush, replied_fsync, replied_getattr, replied_read, replied_setattr,
    replied_write,
};
use crate::rpc::limits::clamped_size;
use crate::rpc::protocol::MAX_IO_SIZE;
use crate::tables::{file_opened, referenced, referenced_inode, relisted, FsState};
use vstd::prelude::*;

verus! {

/// Guest Linux `O_TRUNC` open flag.
pub const GUEST_O_TRUNC: u32 = 0x200;

/// Seek to an absolute offset.
pub const SEEK_SET: u32 = 0;

/// Seek relative to end-of-file.
pub const SEEK_END: u32 = 2;

/// Seek to the next data region.
pub const SEEK_DATA: u32 = 3;

/// Seek to the next hole.
pub const SEEK_HOLE: u32 = 4;

/// The verdict on truncating at open: a provider that cannot set attributes
/// makes the open unsupported.
pub open spec fn truncation_check(reply: Result<VAttr, FsError>) -> Result<(), FsError> {
    match reply {
        Ok(_) => Ok(()),
        Err(e) => if e == FsError::Os(LINUX_ENOSYS) {
            Err(FsError::Os(LINUX_EOPNOTSUPP))
        } else {
            Err(e)
        },
    }
}

/// Decide on a truncation at open from the provider's reply.
pub fn check_truncation(reply: Result<VAttr, FsError>) -> (r: Result<(), FsError>)
    ensures
        r == truncation_check(reply),
{
    match reply {
        Ok(_) => Ok(()),
        Err(e) => if e.is_errno(LINUX_ENOSYS) {
            Err(eopnotsupp())
        } else {
            Err(e)
        },
    }
}

/// What becomes of an open request for `ino` at `path` with the given verdict.
pub open spec fn opened(
    cfg: VirtualFsConfig,
    s: FsState,
    ino: u64,
    path: Seq<u8>,
    verdict: Result<(), FsError>,
    t: FsState,
    r: Result<(Option<u64>, u32), FsError>,
) -> bool {
    match verdict {
        Err(e) => r == Err::<(Option<u64>, u32), FsError>(e) && t == s,
        Ok(_) => {
            &&& t == file_opened(s, ino, path)
            &&& r == Ok::<(Option<u64>, u32), FsError>(
                (Some(s.next_handle), cache_flags(cfg, OPEN_KEEP_CACHE)),
            )
        },
    }
}

/// What becomes of a create request for `path`: the listing of the parent is
/// stale, the node gets a reference and is opened.
pub open spec fn created_open(
    cfg: VirtualFsConfig,
    s: FsState,
    path: Seq<u8>,
    reply: Result<VAttr, FsError>,
    t: FsState,
    r: Result<(Entry, Option<u64>, u32), FsError>,
) -> bool {
    match reply {
        Err(e) => r == Err::<(Entry, Option<u64>, u32), FsError>(e) && t == s,
        Ok(attr) => {
            let stale = relisted(s, set![parent_of(path)]);
            let ino = referenced_inode(stale, path);
            &&& t == file_opened(referenced(stale, path), ino, path)
            &&& r matches Ok(reply) && is_entry(cfg, ino, attr, reply.0) && reply.1 == Some(
                s.next_handle,
            ) && reply.2 == cache_flags(cfg, OPEN_KEEP_CACHE)
        },
    }
}

/// What a read returns for the provider's reply: data beyond what was asked for
/// is not silently dropped.
pub open spec fn data_shown(reply: Result<Seq<u8>, FsError>, size: u32) -> Result<
    Seq<u8>,
    FsError,
> {
    match reply {
        Err(e) => Err(e),
        Ok(data) => if data.len() > size {
            Err(FsError::Os(LINUX_EIO))
        } else {
            Ok(data)
        },
    }
}

/// Check the data the provider returned for a request of `size` bytes.
pub fn read_reply(reply: Result<Vec<u8>, FsError>, size: u32) -> (r: Result<Vec<u8>, FsError>)
    ensures
        bytes_of(r) == data_shown(bytes_of(reply), size),
{
    match reply {
        Err(e) => Err(e),
        Ok(data) => if data.len() > size as usize {
            Err(eio())
        } else {
            Ok(data)
        },
    }
}

/// What a write of `len` bytes returns for the provider's reply.
pub open spec fn count_shown(reply: Result<usize, FsError>, len: nat) -> Result<usize, FsError> {
    match reply {
        Err(e) => Err(e),
        Ok(count) => if count > len {
            Err(FsError::Os(LINUX_EIO))
        } else {
            Ok(count)
        },
    }
}

/// Check the count the provider returned for a write of `len` bytes.
pub fn write_reply(reply: Result<usize, FsError>, len: usize) -> (r: Result<usize, FsError>)
    ensures
        r == count_shown(reply, len as nat),
{
    match reply {
        Err(e) => Err(e),
        Ok(count) => if count > len {
            Err(eio())
        } else {
            Ok(count)
        },
    }
}

/// The end of the range that `fallocate` reserves, as far as a file can be that
/// large.
pub open spec fn reserved_end(offset: u64, length: u64) -> Result<u64, FsError> {
    if offset + length > u64::MAX {
        Err(FsError::Os(LINUX_EINVAL))
    } else if offset + length > i64::MAX {
        Err(FsError::Os(LINUX_EFBIG))
    } else {
        Ok((offset + length) as u64)
    }
}

/// The end of the range that `fallocate` reserves.
pub fn fallocate_end(offset: u64, length: u64) -> (r: Result<u64, FsError>)
    ensures
        r == reserved_end(offset, length),
{
    match offset.checked_add(length) {
        None => Err(einval()),
        Some(end) => if end > i64::MAX as u64 {
            Err(efbig())
        } else {
            Ok(end)
        },
    }
}

/// The position a seek leads to in a file of `size` bytes. The whole file is
/// data, and the hole follows it.
pub open spec fn seek_position(size: u64, offset: u64, whence: u32) -> Result<u64, FsError> {
    if whence == SEEK_SET {
        Ok(offset)
    } else if whence == SEEK_END {
        let pos = (size as i64) + (offset as i64);
        if 0 <= pos <= i64::MAX {
            Ok(pos as u64)
        } else {
            Err(FsError::Os(LINUX_EINVAL))
        }
    } else if whence == SEEK_DATA {
        if offset >= size {
            Err(FsError::Os(LINUX_ENXIO))
        } else {
            Ok(offset)
        }
    } else if whence == SEEK_HOLE {
        if offset >= size {
            Err(FsError::Os(LINUX_ENXIO))
        } else {
            Ok(size)
        }
    } else {
        Err(FsError::Os(LINUX_EINVAL))
    }
}

/// Compute the position a seek leads to.
pub fn seek(size: u64, offset: u64, whence: u32) -> (r: Result<u64, FsError>)
    ensures
        r == seek_position(size, offset, whence),
{
    match whence {
        SEEK_SET => Ok(offset),
        SEEK_END => match (size as i64).checked_add(offset as i64) {
            None => Err(einval()),
            Some(pos) => if pos < 0 {
                Err(einval())
            } else {
                Ok(pos as u64)
            },
        },
        SEEK_DATA => if offset >= size {
            Err(enxio())
        } else {
            Ok(offset)
        },
        SEEK_HOLE => if offset >= size {
            Err(enxio())
        } else {
            Ok(size)
        },
        _ => Err(einval()),
    }
}

impl<P: PathFs> VirtualFs<P> {
    /// Hand out a file handle, if the verdict allows it.
    pub fn open_reply(&mut self, ino: u64, path: Vec<u8>, verdict: Result<(), FsError>) -> (r:
        Result<(Option<u64>, u32), FsError>)
        ensures
            final(self).same_setup(old(self)),
            opened(old(self).config(), old(self)@, ino, path@, verdict, final(self)@, r),
            old(self)@.nodes.contains_key(ino) && shaped(path@) ==> kept(old(self)@, final(self)@),
    {
        match verdict {
            Err(e) => Err(e),
            Ok(_) => {
                proof {
                    if consistent(self@) {
                        handles_keep_consistency(self@, ino, path@, 0, None);
                    }
                }
                let handle = self.tables_mut().open_file(ino, path);
                Ok((Some(handle), self.cache_options(OPEN_KEEP_CACHE)))
            },
        }
    }

    /// Open a file. The provider is asked for the live kind: a programmable
    /// backend can turn a path from file to directory or back.
    pub fn do_open(&mut self, ino: u64, flags: u32) -> (r: Result<(Option<u64>, u32), FsError>)
        ensures
            final(self).same_setup(old(self)),
            match path_lookup(old(self)@, ino) {
                Err(e) => r == Err::<(Option<u64>, u32), FsError>(e) && final(self)@ == old(self)@,
                Ok(path) => exists|a: Result<VAttr, FsError>| #[trigger]
                    replied_getattr(old(self).backend(), path, a) && (match a {
                        Err(e) => r == Err::<(Option<u64>, u32), FsError>(e) && final(self)@
                            == old(self)@,
                        Ok(attr) => if attr.kind == NodeKind::Dir {
                            r == Err::<(Option<u64>, u32), FsError>(FsError::Os(LINUX_EISDIR))
                                && final(self)@ == old(self)@
                        } else if flags & GUEST_O_TRUNC != 0 {
                            exists|b: Result<VAttr, FsError>| #[trigger]
                                replied_setattr(
                                    old(self).backend(),
                                    path,
                                    VAttr { size: 0, ..attr },
                                    SETATTR_SIZE,
                                    b,
                                ) && opened(
                                    old(self).config(),
                                    old(self)@,
                                    ino,
                                    path,
                                    truncation_check(b),
                                    final(self)@,
                                    r,
                                )
                        } else {
                            opened(
                                old(self).config(),
                                old(self)@,
                                ino,
                                path,
                                Ok(()),
                                final(self)@,
                                r,
                            )
                        },
                    }),
            },
            kept(old(self)@, final(self)@),
    {
        match self.path_of(ino) {
            Err(e) => Err(e),
            Ok(path) => {
                let a = self.provider().getattr(path.as_slice());
                proof {
                    assert(replied_getattr(self.backend(), path_lookup(self@, ino)->Ok_0, a));
                    if consistent(self@) {
                        resolved_paths_are_shaped(self@, ino, Seq::empty());
                    }
                }
                match a {
                    Err(e) => Err(e),
                    Ok(attr) => {
                        if attr.kind == NodeKind::Dir {
                            return Err(eisdir());
                        }
                        if flags & GUEST_O_TRUNC != 0 {
                            let mut target = attr;
                            target.size = 0;
                            let b = self.provider().setattr(
                                path.as_slice(),
                                &target,
                                SETATTR_SIZE,
                            );
                            assert(replied_setattr(
                                self.backend(),
                                path@,
                                VAttr { size: 0, ..attr },
                                SETATTR_SIZE,
                                b,
                            ));
                            let verdict = check_truncation(b);
                            self.open_reply(ino, path, verdict)
                        } else {
                            self.open_reply(ino, path, Ok(()))
                        }
                    },
                }
            },
        }
    }

    /// Act on a successful or failed creation of the file `path`.
    pub fn create_reply(&mut self, path: Vec<u8>, reply: Result<VAttr, FsError>) -> (r: Result<
        (Entry, Option<u64>, u32),
        FsError,
    >)
        ensures
            final(self).same_setup(old(self)),
            created_open(old(self).config(), old(self)@, path@, reply, final(self)@, r),
            shaped(path@) ==> kept(old(self)@, final(self)@),
    {
        match reply {
            Err(e) => Err(e),
            Ok(attr) => {
                let ghost s = self@;
                self.refresh_parent(path.as_slice());
                let ghost stale = self@;
                let ino = self.tables_mut().intern_and_reference(copy_bytes(path.as_slice()));
                let ghost with_node = self@;
                let entry = self.build_entry(ino, &attr);
                proof {
                    if consistent(s) && shaped(path@) {
                        referencing_keeps_consistency(stale, path@);
                        handles_keep_consistency(with_node, ino, path@, 0, None);
                    }
                }
                let handle = self.tables_mut().open_file(ino, path);
                Ok((entry, Some(handle), self.cache_options(OPEN_KEEP_CACHE)))
            },
        }
    }

    /// Create and open a regular file.
    pub fn do_create(&mut self, parent: u64, name: &[u8], mode: u32, umask: u32) -> (r: Result<
        (Entry, Option<u64>, u32),
        FsError,
    >)
        ensures
            final(self).same_setup(old(self)),
            match child_lookup(old(self)@, parent, name@) {
                Err(e) => r == Err::<(Entry, Option<u64>, u32), FsError>(e) && final(self)@
                    == old(self)@,
                Ok(path) => exists|a: Result<VAttr, FsError>| #[trigger]
                    replied_create(
                        old(self).backend(),
                        path,
                        fresh_attr(NodeKind::File, request_mode(mode, umask), 0),
                        a,
                    ) && created_open(
                        old(self).config(),
                        old(self)@,
                        path,
                        a,
                        final(self)@,
                        r,
                    ),
            },
            kept(old(self)@, final(self)@),
    {
        match self.child_path(parent, name) {
            Err(e) => Err(e),
            Ok(child) => {
                let req = VAttr::file((mode & 0o7777) & !(umask & 0o7777), 0);
                let a = self.provider().create(child.as_slice(), &req);
                proof {
                    assert(replied_create(
                        self.backend(),
                        child_lookup(self@, parent, name@)->Ok_0,
                        fresh_attr(NodeKind::File, request_mode(mode, umask), 0),
                        a,
                    ));
                    if consistent(self@) {
                        resolved_paths_are_shaped(self@, parent, name@);
                    }
                }
                self.create_reply(child, a)
            },
        }
    }

    /// Read from an open file.
    pub fn do_read(&self, handle: u64, size: u32, offset: u64) -> (r: Result<Vec<u8>, FsError>)
        ensures
            match handle_lookup(self@, handle) {
                Err(e) => bytes_of(r) == Err::<Seq<u8>, FsError>(e),
                Ok(path) => exists|a: Result<Vec<u8>, FsError>| #[trigger]
                    replied_read(self.backend(), path, offset, clamped_size(size), a) && bytes_of(r)
                        == data_shown(bytes_of(a), clamped_size(size)),
            },
    {
        match self.file_handle_path(handle) {
            Err(e) => Err(e),
            Ok(path) => {
                let req_size: u32 = if size < MAX_IO_SIZE {
                    size
                } else {
                    MAX_IO_SIZE
                };
                let a = self.provider().read(path.as_slice(), offset, req_size);
                assert(replied_read(
                    self.backend(),
                    handle_lookup(self@, handle)->Ok_0,
                    offset,
                    clamped_size(size),
                    a,
                ));
                read_reply(a, req_size)
            },
        }
    }

    /// Write `data` to an open file. An empty write is 0 bytes, whatever the provider.
    pub fn do_write(&self, handle: u64, data: &[u8], offset: u64) -> (r: Result<usize, FsError>)
        ensures
            match handle_lookup(self@, handle) {
                Err(e) => r == Err::<usize, FsError>(e),
                Ok(path) => if data@.len() == 0 {
                    r == Ok::<usize, FsError>(0)
                } else {
                    exists|a: Result<usize, FsError>| #[trigger]
                        replied_write(self.backend(), path, offset, data@, a) && r == count_shown(
                            a,
                            data@.len(),
                        )
                },
            },
    {
        match self.file_handle_path(handle) {
            Err(e) => Err(e),
            Ok(path) => {
                if data.len() == 0 {
                    return Ok(0);
                }
                let a = self.provider().write(path.as_slice(), offset, data);
                assert(replied_write(
                    self.backend(),
                    handle_lookup(self@, handle)->Ok_0,
                    offset,
                    data@,
                    a,
                ));
                write_reply(a, data.len())
            },
        }
    }

    /// Flush an open file.
    pub fn do_flush(&self, handle: u64) -> (r: Result<(), FsError>)
        ensures
            match handle_lookup(self@, handle) {
                Err(e) => r == Err::<(), FsError>(e),
                Ok(path) => replied_flush(self.backend(), path, r),
            },
    {
        match self.file_handle_path(handle) {
            Err(e) => Err(e),
            Ok(path) => {
                let a = self.provider().flush(path.as_slice());
                assert(replied_flush(self.backend(), handle_lookup(self@, handle)->Ok_0, a));
                a
            },
        }
    }

    /// Sync an open file to stable storage.
    pub fn do_fsync(&self, handle: u64, datasync: bool) -> (r: Result<(), FsError>)
        ensures
            match handle_lookup(self@, handle) {
                Err(e) => r == Err::<(), FsError>(e),
                Ok(path) => replied_fsync(self.backend(), path, datasync, r),
            },
    {
        match self.file_handle_path(handle) {
            Err(e) => Err(e),
            Ok(path) => {
                let a = self.provider().fsync(path.as_slice(), datasync);
                assert(replied_fsync(
                    self.backend(),
                    handle_lookup(self@, handle)->Ok_0,
                    datasync,
                    a,
                ));
                a
            },
        }
    }

    /// Make sure a file is at least as large as the given range: it is extended
    /// where it is not.
    pub fn do_fallocate(&self, ino: u64, mode: u32, offset: u64, length: u64) -> (r: Result<
        (),
        FsError,
    >)
        ensures
            if mode != 0 {
                r == Err::<(), FsError>(FsError::Os(LINUX_EOPNOTSUPP))
            } else {
                match path_lookup(self@, ino) {
                    Err(e) => r == Err::<(), FsError>(e),
                    Ok(path) => match reserved_end(offset, length) {
                        Err(e) => r == Err::<(), FsError>(e),
                        Ok(end) => exists|a: Result<VAttr, FsError>| #[trigger]
                            replied_getattr(self.backend(), path, a) && (match a {
                                Err(e) => r == Err::<(), FsError>(e),
                                Ok(attr) => if end <= attr.size {
                                    r == Ok::<(), FsError>(())
                                } else {
                                    exists|b: Result<VAttr, FsError>| #[trigger]
                                        replied_setattr(
                                            self.backend(),
                                            path,
                                            VAttr { size: end, ..attr },
                                            SETATTR_SIZE,
                                            b,
                                        ) && r == (match b {
                                            Ok(_) => Ok::<(), FsError>(()),
                                            Err(e) => Err(e),
                                        })
                                },
                            }),
                    },
                }
            },
    {
        if mode != 0 {
            return Err(eopnotsupp());
        }
        match self.path_of(ino) {
            Err(e) => Err(e),
            Ok(path) => match fallocate_end(offset, length) {
                Err(e) => Err(e),
                Ok(new_end) => {
                    let a = self.provider().getattr(path.as_slice());
                    assert(replied_getattr(self.backend(), path_lookup(self@, ino)->Ok_0, a));
                    match a {
                        Err(e) => Err(e),
                        Ok(attr) => {
                            if new_end <= attr.size {
                                return Ok(());
                            }
                            let mut target = attr;
                            target.size = new_end;
                            let b = self.provider().setattr(
                                path.as_slice(),
                                &target,
                                SETATTR_SIZE,
                            );
                            assert(replied_setattr(
                                self.backend(),
                                path_lookup(self@, ino)->Ok_0,
                                VAttr { size: new_end, ..attr },
                                SETATTR_SIZE,
                                b,
                            ));
                            match b {
                                Ok(_) => Ok(()),
                                Err(e) => Err(e),
                            }
                        },
                    }
                },
            },
        }
    }

    /// Close a file handle. The handle is dropped even when the flush fails: the
    /// kernel does not retry.
    pub fn do_release(&mut self, handle: u64, flush: bool) -> (r: Result<(), FsError>)
        ensures
            final(self).same_setup(old(self)),
            final(self)@ == (FsState { files: old(self)@.files.remove(handle), ..old(self)@ }),
            if flush {
                match handle_lookup(old(self)@, handle) {
                    Err(e) => r == Err::<(), FsError>(e),
                    Ok(path) => replied_flush(old(self).backend(), path, r),
                }
            } else {
                r == Ok::<(), FsError>(())
            },
            kept(old(self)@, final(self)@),
    {
        let result = if flush {
            self.do_flush(handle)
        } else {
            Ok(())
        };
        proof {
            if consistent(self@) {
                handles_keep_consistency(self@, 0, Seq::empty(), handle, None);
            }
        }
        self.tables_mut().close_file(handle);
        result
    }

    /// Compute a seek position from the size the provider reports.
    pub fn do_lseek(&self, ino: u64, offset: u64, whence: u32) -> (r: Result<u64, FsError>)
        ensures
            match path_lookup(self@, ino) {
                Err(e) => r == Err::<u64, FsError>(e),
                Ok(path) => exists|a: Result<VAttr, FsError>| #[trigger]
                    replied_getattr(self.backend(), path, a) && (match a {
                        Err(e) => r == Err::<u64, FsError>(e),
                        Ok(attr) => r == seek_position(attr.size, offset, whence),
                    }),
            },
    {
        match self.path_of(ino) {
            Err(e) => Err(e),
            Ok(path) => {
                let a = self.provider().getattr(path.as_slice());
                assert(replied_getattr(self.backend(), path_lookup(self@, ino)->Ok_0, a));
                match a {
                    Err(e) => Err(e),
                    Ok(attr) => seek(attr.size, offset, whence),
                }
            },
        }
    }
}

} // verus!
