//! Node-creation operations: symlink, mknod, and mkdir. (Regular-file creation
//! lives in `file_ops` because it returns an open handle.)

use super::metadata::entered;
use super::{child_lookup, resolved_paths_are_shaped, VirtualFs};
use crate::abi::Entry;
use crate::bytes::views;
use crate::config::VirtualFsConfig;
use crate::error::FsError;
use crate::invariants::{consistent, kept, relisting_keeps_consistency};
use crate::name_validation::{symlink_target_check, validate_symlink_target_bytes};
use crate::path_fs::{fresh_attr, kind_of_mode, NodeKind, PathFs, VAttr};
use crate::paths::{parent_of, parent_path, shaped};
use crate::platform::{einval, LINUX_EINVAL};
use crate::replies::{replied_create, replied_mkdir, replied_symlink};
use crate::tables::{relisted, FsState};
use vstd::prelude::*;

verus! {

/// The permission bits of a creation request: those the umask leaves.
pub open spec fn request_mode(mode: u32, umask: u32) -> u32 {
    (mode & 0o7777) & !(umask & 0o7777)
}

/// A creation request carries no bit that the umask masks and nothing but
/// permission bits; an empty umask masks none.
pub proof fn umask_bits_are_cleared(mode: u32, umask: u32)
    ensures
        request_mode(mode, umask) & umask == 0,
        request_mode(mode, umask) <= 0o7777,
        request_mode(mode, 0) == mode & 0o7777,
{
    assert(((mode & 0o7777) & !(umask & 0o7777)) & umask == 0) by (bit_vector);
    assert((mode & 0o7777) & !(umask & 0o7777) <= 0o7777) by (bit_vector);
    assert((mode & 0o7777) & !(0u32 & 0o7777) == mode & 0o7777) by (bit_vector);
}

/// The attributes asked for when a node of the given kind is created.
pub open spec fn node_request(kind: NodeKind, mode: u32, umask: u32, rdev: u32) -> VAttr {
    VAttr { rdev, ..fresh_attr(kind, request_mode(mode, umask), 0) }
}

/// What becomes of a creation of `path`: on success the listing of its parent is
/// stale and the node is entered.
pub open spec fn created(
    cfg: VirtualFsConfig,
    s: FsState,
    path: Seq<u8>,
    reply: Result<VAttr, FsError>,
    t: FsState,
    r: Result<Entry, FsError>,
) -> bool {
    match reply {
        Err(e) => r == Err::<Entry, FsError>(e) && t == s,
        Ok(_) => entered(cfg, relisted(s, set![parent_of(path)]), path, reply, t, r),
    }
}

impl<P: PathFs> VirtualFs<P> {
    /// Drop the snapshots of the directory that holds `path`.
    pub(crate) fn refresh_parent(&mut self, path: &[u8])
        ensures
            final(self).same_setup(old(self)),
            final(self)@ == relisted(old(self)@, set![parent_of(path@)]),
            kept(old(self)@, final(self)@),
    {
        let mut dirs: Vec<Vec<u8>> = Vec::new();
        dirs.push(parent_path(path));
        proof {
            assert(views(dirs@)[0] == parent_of(path@));
            assert(views(dirs@).to_set() =~= set![parent_of(path@)]);
            if consistent(self@) {
                relisting_keeps_consistency(self@, set![parent_of(path@)]);
            }
        }
        self.tables_mut().invalidate_dir_listings(dirs.as_slice());
    }

    /// Act on a successful or failed creation of `path`.
    pub fn created_reply(&mut self, path: Vec<u8>, reply: Result<VAttr, FsError>) -> (r: Result<
        Entry,
        FsError,
    >)
        ensures
            final(self).same_setup(old(self)),
            created(old(self).config(), old(self)@, path@, reply, final(self)@, r),
            shaped(path@) ==> kept(old(self)@, final(self)@),
    {
        match reply {
            Err(e) => Err(e),
            Ok(_) => {
                self.refresh_parent(path.as_slice());
                self.enter_reply(path, reply)
            },
        }
    }

    /// Create a symbolic link.
    pub fn do_symlink(&mut self, linkname: &[u8], parent: u64, name: &[u8]) -> (r: Result<
        Entry,
        FsError,
    >)
        ensures
            final(self).same_setup(old(self)),
            match child_lookup(old(self)@, parent, name@) {
                Err(e) => r == Err::<Entry, FsError>(e) && final(self)@ == old(self)@,
                Ok(path) => match symlink_target_check(linkname@) {
                    Err(e) => r == Err::<Entry, FsError>(e) && final(self)@ == old(self)@,
                    Ok(_) => exists|a: Result<VAttr, FsError>| #[trigger]
                        replied_symlink(old(self).backend(), path, linkname@, a) && created(
                            old(self).config(),
                            old(self)@,
                            path,
                            a,
                            final(self)@,
                            r,
                        ),
                },
            },
            kept(old(self)@, final(self)@),
    {
        match self.child_path(parent, name) {
            Err(e) => Err(e),
            Ok(child) => match validate_symlink_target_bytes(linkname) {
                Err(e) => Err(e),
                Ok(_) => {
                    let a = self.provider().symlink(child.as_slice(), linkname);
                    proof {
                        assert(replied_symlink(
                            self.backend(),
                            child_lookup(self@, parent, name@)->Ok_0,
                            linkname@,
                            a,
                        ));
                        if consistent(self@) {
                            resolved_paths_are_shaped(self@, parent, name@);
                        }
                    }
                    self.created_reply(child, a)
                },
            },
        }
    }

    /// Create a regular file or a special node, as the type bits of `mode` say.
    pub fn do_mknod(
        &mut self,
        parent: u64,
        name: &[u8],
        mode: u32,
        rdev: u32,
        umask: u32,
    ) -> (r: Result<Entry, FsError>)
        ensures
            final(self).same_setup(old(self)),
            match child_lookup(old(self)@, parent, name@) {
                Err(e) => r == Err::<Entry, FsError>(e) && final(self)@ == old(self)@,
                Ok(path) => match kind_of_mode(mode) {
                    None => r == Err::<Entry, FsError>(FsError::Os(LINUX_EINVAL)) && final(self)@
                        == old(self)@,
                    Some(kind) => exists|a: Result<VAttr, FsError>| #[trigger]
                        replied_create(
                            old(self).backend(),
                            path,
                            node_request(kind, mode, umask, rdev),
                            a,
                        ) && created(old(self).config(), old(self)@, path, a, final(self)@, r),
                },
            },
            kept(old(self)@, final(self)@),
    {
        match self.child_path(parent, name) {
            Err(e) => Err(e),
            Ok(child) => match NodeKind::from_mode(mode) {
                None => Err(einval()),
                Some(kind) => {
                    let mut attr = VAttr::new(kind, (mode & 0o7777) & !(umask & 0o7777), 0);
                    attr.rdev = rdev;
                    let a = self.provider().create(child.as_slice(), &attr);
                    proof {
                        assert(replied_create(
                            self.backend(),
                            child_lookup(self@, parent, name@)->Ok_0,
                            node_request(kind, mode, umask, rdev),
                            a,
                        ));
                        if consistent(self@) {
                            resolved_paths_are_shaped(self@, parent, name@);
                        }
                    }
                    self.created_reply(child, a)
                },
            },
        }
    }

    /// Create a directory.
    pub fn do_mkdir(&mut self, parent: u64, name: &[u8], mode: u32, umask: u32) -> (r: Result<
        Entry,
        FsError,
    >)
        ensures
            final(self).same_setup(old(self)),
            match child_lookup(old(self)@, parent, name@) {
                Err(e) => r == Err::<Entry, FsError>(e) && final(self)@ == old(self)@,
                Ok(path) => exists|a: Result<VAttr, FsError>| #[trigger]
                    replied_mkdir(old(self).backend(), path, request_mode(mode, umask), a)
                        && created(
                        old(self).config(),
                        old(self)@,
                        path,
                        a,
                        final(self)@,
                        r,
                    ),
            },
            kept(old(self)@, final(self)@),
    {
        match self.child_path(parent, name) {
            Err(e) => Err(e),
            Ok(child) => {
                let bits: u32 = (mode & 0o7777) & !(umask & 0o7777);
                let a = self.provider().mkdir(child.as_slice(), bits);
                proof {
                    assert(replied_mkdir(
                        self.backend(),
                        child_lookup(self@, parent, name@)->Ok_0,
                        request_mode(mode, umask),
                        a,
                    ));
                    if consistent(self@) {
                        resolved_paths_are_shaped(self@, parent, name@);
                    }
                }
                self.created_reply(child, a)
            },
        }
    }
}

} // verus!
