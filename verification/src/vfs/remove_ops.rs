//! Removal and rename operations: unlink, rmdir, and rename.

use super::{child_lookup, path_lookup, resolved_paths_are_shaped, VirtualFs};
use crate::bytes::{bytes_eq, copy_bytes, views};
use crate::error::FsError;
use crate::invariants::{
    changed_directories_are_listed_afresh, consistent, detaching_keeps_consistency, kept,
    numbered, relisting_keeps_consistency, renaming_keeps_consistency,
};
use crate::name_validation::{
    memfs_name_check, path_check, validate_memfs_name, validate_provider_path_bytes,
};
use crate::path_fs::{NodeKind, PathFs, VAttr, RENAME_EXCHANGE, RENAME_NOREPLACE};
use crate::paths::{
    absolute, at_or_under, is_at_or_under, join, joined, parent_of, parent_path, shaped,
    tombstones_are_private,
};
use crate::platform::{
    einval, eisdir, enosys, LINUX_EBADF, LINUX_EINVAL, LINUX_EISDIR, LINUX_ENOSYS, LINUX_ESTALE,
};
use crate::replies::{
    replied_getattr, replied_remove, replied_rename_with_flags, replied_rmdir,
};
use crate::tables::{
    detached, holder_path, inode_at, is_at, lemma_inode_at_some, overwritten, referenced_inode,
    relisted, remapped, renamed_listings, FsState,
};
use vstd::prelude::*;

verus! {

/// The rename flags that are known.
pub const KNOWN_RENAME_FLAGS: u32 = RENAME_NOREPLACE | RENAME_EXCHANGE;

/// The verdict on rename flags: unknown flags and contradicting ones are
/// invalid, and an exchange is not supported.
pub open spec fn rename_flags_check(flags: u32) -> Result<(), FsError> {
    if flags & !KNOWN_RENAME_FLAGS != 0 {
        Err(FsError::Os(LINUX_EINVAL))
    } else if flags & RENAME_NOREPLACE != 0 && flags & RENAME_EXCHANGE != 0 {
        Err(FsError::Os(LINUX_EINVAL))
    } else if flags & RENAME_EXCHANGE != 0 {
        Err(FsError::Os(LINUX_ENOSYS))
    } else {
        Ok(())
    }
}

/// Check rename flags.
pub fn check_rename_flags(flags: u32) -> (r: Result<(), FsError>)
    ensures
        r == rename_flags_check(flags),
{
    if flags & !KNOWN_RENAME_FLAGS != 0 {
        return Err(einval());
    }
    if flags & RENAME_NOREPLACE != 0 && flags & RENAME_EXCHANGE != 0 {
        return Err(einval());
    }
    if flags & RENAME_EXCHANGE != 0 {
        return Err(enosys());
    }
    Ok(())
}

/// The old and the new path of a rename, as far as both are valid.
pub open spec fn rename_paths(
    s: FsState,
    olddir: u64,
    oldname: Seq<u8>,
    newdir: u64,
    newname: Seq<u8>,
) -> Result<(Seq<u8>, Seq<u8>), FsError> {
    match memfs_name_check(oldname) {
        Err(e) => Err(e),
        Ok(_) => match memfs_name_check(newname) {
            Err(e) => Err(e),
            Ok(_) => match path_lookup(s, olddir) {
                Err(e) => Err(e),
                Ok(from_dir) => match path_lookup(s, newdir) {
                    Err(e) => Err(e),
                    Ok(to_dir) => {
                        let from = joined(from_dir, oldname);
                        let to = joined(to_dir, newname);
                        match path_check(from) {
                            Err(e) => Err(e),
                            Ok(_) => match path_check(to) {
                                Err(e) => Err(e),
                                Ok(_) => Ok((from, to)),
                            },
                        }
                    },
                },
            },
        },
    }
}

/// The state after `path` was unlinked.
pub open spec fn unlinked(s: FsState, path: Seq<u8>) -> FsState {
    relisted(detached(s, path), set![parent_of(path)])
}

/// An unlinked inode has no path any more: it is stale while the guest still
/// references it, and unknown otherwise. Nothing is found under its old path.
pub proof fn unlinked_inodes_are_stale(s: FsState, path: Seq<u8>)
    requires
        consistent(s),
        shaped(path),
        inode_at(s.nodes, path) is Some,
    ensures
        path_lookup(unlinked(s, path), inode_at(s.nodes, path)->0) == Err::<Seq<u8>, FsError>(
            if s.nodes[inode_at(s.nodes, path)->0].refs > 0 {
                FsError::Os(LINUX_ESTALE)
            } else {
                FsError::Os(LINUX_EBADF)
            },
        ),
        inode_at(unlinked(s, path).nodes, path) is None,
{
    let ino = inode_at(s.nodes, path)->0;
    tombstones_are_private(path, ino, ino);
    detaching_keeps_consistency(s, path);
}

/// The state after the directory `path` was removed.
pub open spec fn directory_removed(s: FsState, path: Seq<u8>) -> FsState {
    detached(relisted(s, set![path, parent_of(path)]), path)
}

/// The state after `from` was renamed to `to`.
pub open spec fn renamed(s: FsState, from: Seq<u8>, to: Seq<u8>) -> FsState {
    relisted(remapped(s, from, to), renamed_listings(from, to))
}

/// The inode of a removed directory has no path any more either.
pub proof fn removed_directories_are_stale(s: FsState, path: Seq<u8>)
    requires
        consistent(s),
        shaped(path),
        inode_at(s.nodes, path) is Some,
    ensures
        path_lookup(directory_removed(s, path), inode_at(s.nodes, path)->0) == Err::<
            Seq<u8>,
            FsError,
        >(
            if s.nodes[inode_at(s.nodes, path)->0].refs > 0 {
                FsError::Os(LINUX_ESTALE)
            } else {
                FsError::Os(LINUX_EBADF)
            },
        ),
        inode_at(directory_removed(s, path).nodes, path) is None,
{
    let ino = inode_at(s.nodes, path)->0;
    let t = relisted(s, set![path, parent_of(path)]);
    tombstones_are_private(path, ino, ino);
    relisting_keeps_consistency(s, set![path, parent_of(path)]);
    detaching_keeps_consistency(t, path);
}

/// What is made anew under the name of an unlinked file gets a number of its
/// own.
pub proof fn a_reused_name_gets_a_new_inode(s: FsState, path: Seq<u8>)
    requires
        consistent(s),
        numbered(s),
        shaped(path),
        inode_at(s.nodes, path) is Some,
    ensures
        referenced_inode(unlinked(s, path), path) == s.next_inode,
        referenced_inode(unlinked(s, path), path) != inode_at(s.nodes, path)->0,
{
    detaching_keeps_consistency(s, path);
    let some = choose|i: u64| #[trigger] is_at(s.nodes, i, path);
    lemma_inode_at_some(s.nodes, some, path);
}

/// An inode whose name a rename took over has no path any more.
pub proof fn overwritten_inodes_are_stale(s: FsState, from: Seq<u8>, to: Seq<u8>, ino: u64)
    requires
        s.nodes.contains_key(ino),
        overwritten(s.nodes[ino].path, from, to),
    ensures
        path_lookup(renamed(s, from, to), ino) == Err::<Seq<u8>, FsError>(
            if s.nodes[ino].refs > 0 {
                FsError::Os(LINUX_ESTALE)
            } else {
                FsError::Os(LINUX_EBADF)
            },
        ),
{
    tombstones_are_private(to, ino, ino);
}

/// After a rename, every open directory that is one of the two parents or lies
/// at or under the new name is listed afresh.
pub proof fn renames_refresh_listings(
    s: FsState,
    from: Seq<u8>,
    to: Seq<u8>,
    handle: u64,
    path: Seq<u8>,
)
    requires
        s.dirs.contains_key(handle),
        absolute(path),
        path == parent_of(from) || path == parent_of(to) || at_or_under(path, to),
        holder_path(
            remapped(s, from, to).nodes,
            remapped(s, from, to).dirs[handle].inode,
            remapped(s, from, to).dirs[handle].orphan,
        ) == Some(path),
    ensures
        renamed(s, from, to).dirs[handle].snapshot is None,
{
    tombstones_are_private(path, 0, 0);
    changed_directories_are_listed_afresh(
        remapped(s, from, to),
        renamed_listings(from, to),
        handle,
    );
}

impl<P: PathFs> VirtualFs<P> {
    /// Act on a successful or failed removal of the file `path`.
    pub fn unlink_reply(&mut self, path: &[u8], reply: Result<(), FsError>) -> (r: Result<
        (),
        FsError,
    >)
        ensures
            final(self).same_setup(old(self)),
            r == reply,
            final(self)@ == (if reply is Ok {
                unlinked(old(self)@, path@)
            } else {
                old(self)@
            }),
            shaped(path@) && path@.len() > 1 ==> kept(old(self)@, final(self)@),
    {
        if reply.is_ok() {
            proof {
                if consistent(self@) && shaped(path@) {
                    detaching_keeps_consistency(self@, path@);
                }
            }
            self.tables_mut().detach_path(path);
            self.refresh_parent(path);
        }
        reply
    }

    /// Remove a file, symlink or special node.
    pub fn do_unlink(&mut self, parent: u64, name: &[u8]) -> (r: Result<(), FsError>)
        ensures
            final(self).same_setup(old(self)),
            match child_lookup(old(self)@, parent, name@) {
                Err(e) => r == Err::<(), FsError>(e) && final(self)@ == old(self)@,
                Ok(path) => exists|a: Result<VAttr, FsError>| #[trigger]
                    replied_getattr(old(self).backend(), path, a) && (match a {
                        Err(e) => r == Err::<(), FsError>(e) && final(self)@ == old(self)@,
                        Ok(attr) => if attr.kind == NodeKind::Dir {
                            r == Err::<(), FsError>(FsError::Os(LINUX_EISDIR)) && final(self)@
                                == old(self)@
                        } else {
                            replied_remove(old(self).backend(), path, r) && final(self)@ == (
                            if r is Ok {
                                unlinked(old(self)@, path)
                            } else {
                                old(self)@
                            })
                        },
                    }),
            },
            kept(old(self)@, final(self)@),
    {
        match self.child_path(parent, name) {
            Err(e) => Err(e),
            Ok(child) => {
                let a = self.provider().getattr(child.as_slice());
                assert(replied_getattr(
                    self.backend(),
                    child_lookup(self@, parent, name@)->Ok_0,
                    a,
                ));
                match a {
                    Err(e) => Err(e),
                    Ok(attr) => {
                        if attr.kind == NodeKind::Dir {
                            return Err(eisdir());
                        }
                        let b = self.provider().remove(child.as_slice());
                        proof {
                            assert(replied_remove(
                                self.backend(),
                                child_lookup(self@, parent, name@)->Ok_0,
                                b,
                            ));
                            if consistent(self@) {
                                resolved_paths_are_shaped(self@, parent, name@);
                            }
                        }
                        self.unlink_reply(child.as_slice(), b)
                    },
                }
            },
        }
    }

    /// Act on a successful or failed removal of the directory `path`.
    pub fn rmdir_reply(&mut self, path: &[u8], reply: Result<(), FsError>) -> (r: Result<
        (),
        FsError,
    >)
        ensures
            final(self).same_setup(old(self)),
            r == reply,
            final(self)@ == (if reply is Ok {
                directory_removed(old(self)@, path@)
            } else {
                old(self)@
            }),
            shaped(path@) && path@.len() > 1 ==> kept(old(self)@, final(self)@),
    {
        if reply.is_ok() {
            let mut dirs: Vec<Vec<u8>> = Vec::new();
            dirs.push(copy_bytes(path));
            dirs.push(parent_path(path));
            proof {
                let listed = views(dirs@);
                assert(listed[0] == path@ && listed[1] == parent_of(path@));
                assert(listed.to_set() =~= set![path@, parent_of(path@)]);
                if consistent(self@) && shaped(path@) {
                    relisting_keeps_consistency(self@, listed.to_set());
                    detaching_keeps_consistency(relisted(self@, listed.to_set()), path@);
                }
            }
            self.tables_mut().invalidate_dir_listings(dirs.as_slice());
            self.tables_mut().detach_path(path);
        }
        reply
    }

    /// Remove an empty directory.
    pub fn do_rmdir(&mut self, parent: u64, name: &[u8]) -> (r: Result<(), FsError>)
        ensures
            final(self).same_setup(old(self)),
            match child_lookup(old(self)@, parent, name@) {
                Err(e) => r == Err::<(), FsError>(e) && final(self)@ == old(self)@,
                Ok(path) => replied_rmdir(old(self).backend(), path, r) && final(self)@ == (
                if r is Ok {
                    directory_removed(old(self)@, path)
                } else {
                    old(self)@
                }),
            },
            kept(old(self)@, final(self)@),
    {
        match self.child_path(parent, name) {
            Err(e) => Err(e),
            Ok(child) => {
                let a = self.provider().rmdir(child.as_slice());
                proof {
                    assert(replied_rmdir(
                        self.backend(),
                        child_lookup(self@, parent, name@)->Ok_0,
                        a,
                    ));
                    if consistent(self@) {
                        resolved_paths_are_shaped(self@, parent, name@);
                    }
                }
                self.rmdir_reply(child.as_slice(), a)
            },
        }
    }

    /// Validate both names of a rename and resolve both paths.
    pub fn resolve_rename(&self, olddir: u64, oldname: &[u8], newdir: u64, newname: &[u8]) -> (r:
        Result<(Vec<u8>, Vec<u8>), FsError>)
        ensures
            match r {
                Ok(p) => rename_paths(self@, olddir, oldname@, newdir, newname@) == Ok::<
                    (Seq<u8>, Seq<u8>),
                    FsError,
                >((p.0@, p.1@)),
                Err(e) => rename_paths(self@, olddir, oldname@, newdir, newname@) == Err::<
                    (Seq<u8>, Seq<u8>),
                    FsError,
                >(e),
            },
    {
        match validate_memfs_name(oldname) {
            Err(e) => {
                return Err(e);
            },
            Ok(_) => {},
        }
        match validate_memfs_name(newname) {
            Err(e) => {
                return Err(e);
            },
            Ok(_) => {},
        }
        let from = match self.path_of(olddir) {
            Err(e) => {
                return Err(e);
            },
            Ok(dir) => join(dir.as_slice(), oldname),
        };
        let to = match self.path_of(newdir) {
            Err(e) => {
                return Err(e);
            },
            Ok(dir) => join(dir.as_slice(), newname),
        };
        match validate_provider_path_bytes(from.as_slice()) {
            Err(e) => {
                return Err(e);
            },
            Ok(_) => {},
        }
        match validate_provider_path_bytes(to.as_slice()) {
            Err(e) => Err(e),
            Ok(_) => Ok((from, to)),
        }
    }

    /// Act on a successful or failed rename of `from` to `to`.
    pub fn rename_reply(&mut self, from: &[u8], to: &[u8], reply: Result<(), FsError>) -> (r:
        Result<(), FsError>)
        ensures
            final(self).same_setup(old(self)),
            r == reply,
            final(self)@ == (if reply is Ok {
                renamed(old(self)@, from@, to@)
            } else {
                old(self)@
            }),
            shaped(from@) && shaped(to@) && from@.len() > 1 && to@.len() > 1 ==> kept(
                old(self)@,
                final(self)@,
            ),
    {
        if reply.is_ok() {
            proof {
                if consistent(self@) && shaped(from@) && shaped(to@) && from@.len() > 1
                    && to@.len() > 1 {
                    renaming_keeps_consistency(self@, from@, to@);
                    relisting_keeps_consistency(
                        remapped(self@, from@, to@),
                        renamed_listings(from@, to@),
                    );
                }
            }
            self.tables_mut().remap_subtree_inodes(from, to);
            self.tables_mut().invalidate_after_rename(from, to);
        }
        reply
    }

    /// Rename a file or directory. Renaming something to itself does nothing;
    /// nothing can be moved into itself.
    pub fn do_rename(
        &mut self,
        olddir: u64,
        oldname: &[u8],
        newdir: u64,
        newname: &[u8],
        flags: u32,
    ) -> (r: Result<(), FsError>)
        ensures
            final(self).same_setup(old(self)),
            match rename_flags_check(flags) {
                Err(e) => r == Err::<(), FsError>(e) && final(self)@ == old(self)@,
                Ok(_) => match rename_paths(old(self)@, olddir, oldname@, newdir, newname@) {
                    Err(e) => r == Err::<(), FsError>(e) && final(self)@ == old(self)@,
                    Ok((from, to)) => if from == to {
                        r == Ok::<(), FsError>(()) && final(self)@ == old(self)@
                    } else if at_or_under(to, from) {
                        r == Err::<(), FsError>(FsError::Os(LINUX_EINVAL)) && final(self)@
                            == old(self)@
                    } else {
                        replied_rename_with_flags(old(self).backend(), from, to, flags, r)
                            && final(self)@ == (if r is Ok {
                            renamed(old(self)@, from, to)
                        } else {
                            old(self)@
                        })
                    },
                },
            },
            kept(old(self)@, final(self)@),
    {
        match check_rename_flags(flags) {
            Err(e) => {
                return Err(e);
            },
            Ok(_) => {},
        }
        match self.resolve_rename(olddir, oldname, newdir, newname) {
            Err(e) => Err(e),
            Ok((from, to)) => {
                if bytes_eq(from.as_slice(), to.as_slice()) {
                    return Ok(());
                }
                if is_at_or_under(to.as_slice(), from.as_slice()) {
                    return Err(einval());
                }
                let a = self.provider().rename_with_flags(from.as_slice(), to.as_slice(), flags);
                assert(replied_rename_with_flags(self.backend(), from@, to@, flags, a));
                self.rename_reply(from.as_slice(), to.as_slice(), a)
            },
        }
    }
}

} // verus!
