//! Metadata operations: lookup, getattr, setattr, readlink, and access.

use super::{bytes_of, child_lookup, is_entry, path_lookup, resolved_paths_are_shaped, VirtualFs};
use crate::abi::{
    Context, Entry, Stat64, SETATTR_ATIME, SETATTR_ATIME_NOW, SETATTR_CTIME, SETATTR_GID,
    SETATTR_MODE, SETATTR_MTIME, SETATTR_MTIME_NOW, SETATTR_SIZE, SETATTR_UID,
};
use crate::bytes::{dot, is_dot};
use crate::clock::{current_time, is_now};
use crate::config::VirtualFsConfig;
use crate::error::FsError;
use crate::invariants::{consistent, kept, referencing_keeps_consistency};
use crate::name_validation::{
    name_check, symlink_target_check, validate_name, validate_symlink_target_bytes,
};
use crate::path_fs::{PathFs, VAttr};
use crate::paths::shaped;
use crate::platform::{
    eacces, einval, ACCESS_F_OK, ACCESS_R_OK, ACCESS_W_OK, ACCESS_X_OK, LINUX_EACCES, LINUX_EINVAL,
};
use crate::replies::{replied_getattr, replied_readlink, replied_setattr};
use crate::stat::{is_stat, vattr_to_stat};
use crate::tables::{referenced, referenced_inode, FsState};
use crate::time::{systime, timespec_nanos, Span, VTime};
use vstd::prelude::*;

verus! {

/// The path a lookup of `name` in `parent` is about. The name `.` is the
/// directory itself.
pub open spec fn lookup_target(s: FsState, parent: u64, name: Seq<u8>) -> Result<
    Seq<u8>,
    FsError,
> {
    match name_check(name) {
        Err(e) => Err(e),
        Ok(_) => if name == dot() {
            path_lookup(s, parent)
        } else {
            child_lookup(s, parent, name)
        },
    }
}

/// What becomes of the attributes `reply` for `path`: the node gets one more
/// reference and its entry is returned; an error is passed on and changes
/// nothing.
pub open spec fn entered(
    cfg: VirtualFsConfig,
    s: FsState,
    path: Seq<u8>,
    reply: Result<VAttr, FsError>,
    t: FsState,
    r: Result<Entry, FsError>,
) -> bool {
    match reply {
        Err(e) => r == Err::<Entry, FsError>(e) && t == s,
        Ok(attr) => {
            &&& t == referenced(s, path)
            &&& r matches Ok(entry) && is_entry(cfg, referenced_inode(s, path), attr, entry)
        },
    }
}

/// What `getattr` returns for the attributes `reply` of the inode `ino`.
pub open spec fn attr_shown(
    cfg: VirtualFsConfig,
    ino: u64,
    reply: Result<VAttr, FsError>,
    r: Result<(Stat64, Span), FsError>,
) -> bool {
    match reply {
        Err(e) => r == Err::<(Stat64, Span), FsError>(e),
        Ok(attr) => r matches Ok(shown) && is_stat(ino, attr, shown.0) && shown.1
            == cfg.attr_timeout,
    }
}

/// The attributes a `setattr` request asks for: the current ones, overlaid by
/// the selected fields of `attr`. `atime_now` and `mtime_now` are the times that
/// stand for "now".
pub open spec fn overlaid(
    current: VAttr,
    attr: Stat64,
    valid: u32,
    atime_now: VTime,
    mtime_now: VTime,
) -> Result<VAttr, FsError> {
    if valid & SETATTR_SIZE != 0 && attr.st_size < 0 {
        Err(FsError::Os(LINUX_EINVAL))
    } else {
        Ok(
            VAttr {
                kind: current.kind,
                mode: if valid & SETATTR_MODE != 0 {
                    attr.st_mode & 0o7777
                } else {
                    current.mode
                },
                size: if valid & SETATTR_SIZE != 0 {
                    attr.st_size as u64
                } else {
                    current.size
                },
                uid: if valid & SETATTR_UID != 0 {
                    attr.st_uid
                } else {
                    current.uid
                },
                gid: if valid & SETATTR_GID != 0 {
                    attr.st_gid
                } else {
                    current.gid
                },
                nlink: current.nlink,
                rdev: current.rdev,
                atime: if valid & SETATTR_ATIME == 0 {
                    current.atime
                } else if valid & SETATTR_ATIME_NOW != 0 {
                    Some(atime_now)
                } else {
                    Some(VTime::at(timespec_nanos(attr.st_atime, attr.st_atime_nsec)))
                },
                mtime: if valid & SETATTR_MTIME == 0 {
                    current.mtime
                } else if valid & SETATTR_MTIME_NOW != 0 {
                    Some(mtime_now)
                } else {
                    Some(VTime::at(timespec_nanos(attr.st_mtime, attr.st_mtime_nsec)))
                },
                ctime: if valid & SETATTR_CTIME == 0 {
                    current.ctime
                } else {
                    Some(VTime::at(timespec_nanos(attr.st_ctime, attr.st_ctime_nsec)))
                },
            },
        )
    }
}

/// Overlay the requested fields on the current attributes.
pub fn overlay_attrs(
    current: &VAttr,
    attr: &Stat64,
    valid: u32,
    atime_now: VTime,
    mtime_now: VTime,
) -> (r: Result<VAttr, FsError>)
    ensures
        r == overlaid(*current, *attr, valid, atime_now, mtime_now),
{
    let mut target = *current;
    if valid & SETATTR_SIZE != 0 {
        if attr.st_size < 0 {
            return Err(einval());
        }
        target.size = attr.st_size as u64;
    }
    if valid & SETATTR_MODE != 0 {
        target.mode = attr.st_mode & 0o7777;
    }
    if valid & SETATTR_UID != 0 {
        target.uid = attr.st_uid;
    }
    if valid & SETATTR_GID != 0 {
        target.gid = attr.st_gid;
    }
    if valid & SETATTR_ATIME != 0 {
        target.atime = if valid & SETATTR_ATIME_NOW != 0 {
            Some(atime_now)
        } else {
            Some(systime(attr.st_atime, attr.st_atime_nsec))
        };
    }
    if valid & SETATTR_MTIME != 0 {
        target.mtime = if valid & SETATTR_MTIME_NOW != 0 {
            Some(mtime_now)
        } else {
            Some(systime(attr.st_mtime, attr.st_mtime_nsec))
        };
    }
    if valid & SETATTR_CTIME != 0 {
        target.ctime = Some(systime(attr.st_ctime, attr.st_ctime_nsec));
    }
    Ok(target)
}

/// A request that selects nothing asks for the current attributes.
pub proof fn selecting_nothing_changes_nothing(
    current: VAttr,
    attr: Stat64,
    atime_now: VTime,
    mtime_now: VTime,
)
    ensures
        overlaid(current, attr, 0, atime_now, mtime_now) == Ok::<VAttr, FsError>(current),
{
    assert forall|bit: u32| #[trigger] (0u32 & bit) == 0 by {
        assert(0u32 & bit == 0) by (bit_vector);
    }
}

/// What a request does not select stays as it is, and the kind, the link count
/// and the device number always do.
pub proof fn unselected_fields_stay(
    current: VAttr,
    attr: Stat64,
    valid: u32,
    atime_now: VTime,
    mtime_now: VTime,
)
    ensures
        overlaid(current, attr, valid, atime_now, mtime_now) matches Ok(target) ==> {
            &&& target.kind == current.kind && target.nlink == current.nlink && target.rdev
                == current.rdev
            &&& valid & SETATTR_MODE == 0 ==> target.mode == current.mode
            &&& valid & SETATTR_SIZE == 0 ==> target.size == current.size
            &&& valid & SETATTR_UID == 0 ==> target.uid == current.uid
            &&& valid & SETATTR_GID == 0 ==> target.gid == current.gid
            &&& valid & SETATTR_ATIME == 0 ==> target.atime == current.atime
            &&& valid & SETATTR_MTIME == 0 ==> target.mtime == current.mtime
            &&& valid & SETATTR_CTIME == 0 ==> target.ctime == current.ctime
        },
{
}

/// The permission bits that apply to a caller who is not root: those of the
/// owner, of the group, or of the others.
pub open spec fn class_bits(attr: VAttr, ctx: Context) -> u32 {
    if attr.uid == ctx.uid {
        ((attr.mode & 0o7777) >> 6) & 0o7
    } else if attr.gid == ctx.gid {
        ((attr.mode & 0o7777) >> 3) & 0o7
    } else {
        (attr.mode & 0o7777) & 0o7
    }
}

/// Whether a permission is asked for and not granted.
pub open spec fn refused(mask: u32, bits: u32, permission: u32) -> bool {
    mask & permission != 0 && bits & permission == 0
}

/// The verdict on an access request, by the caller's uid and primary gid alone.
/// Root may do everything but execute what nobody may execute.
pub open spec fn access_check(attr: VAttr, ctx: Context, mask: u32) -> Result<(), FsError> {
    let denied = if mask == ACCESS_F_OK {
        false
    } else if ctx.uid == 0 {
        mask & ACCESS_X_OK != 0 && (attr.mode & 0o7777) & 0o111 == 0
    } else {
        let bits = class_bits(attr, ctx);
        refused(mask, bits, ACCESS_R_OK) || refused(mask, bits, ACCESS_W_OK) || refused(
            mask,
            bits,
            ACCESS_X_OK,
        )
    };
    if denied {
        Err(FsError::Os(LINUX_EACCES))
    } else {
        Ok(())
    }
}

/// Who may do something may also do less.
pub proof fn asking_for_less_is_granted(attr: VAttr, ctx: Context, mask: u32, less: u32)
    requires
        access_check(attr, ctx, mask) is Ok,
        less & mask == less,
    ensures
        access_check(attr, ctx, less) is Ok,
{
    assert forall|bit: u32| #[trigger] (less & bit) != 0 implies mask & bit != 0 by {
        assert(less & bit != 0 ==> mask & bit != 0) by (bit_vector)
            requires
                less & mask == less,
        ;
    }
    assert forall|bit: u32| #[trigger] (0u32 & bit) == 0 by {
        assert(0u32 & bit == 0) by (bit_vector);
    }
}

/// Root may read and write everything.
pub proof fn root_may_read_and_write(attr: VAttr, ctx: Context, mask: u32)
    requires
        ctx.uid == 0,
        mask & ACCESS_X_OK == 0,
    ensures
        access_check(attr, ctx, mask) is Ok,
{
}

/// Decide an access request from the attributes of the node.
pub fn check_access(attr: &VAttr, ctx: Context, mask: u32) -> (r: Result<(), FsError>)
    ensures
        r == access_check(*attr, ctx, mask),
{
    if mask == ACCESS_F_OK {
        return Ok(());
    }
    let perm: u32 = attr.mode & 0o7777;
    if ctx.uid == 0 {
        if mask & ACCESS_X_OK != 0 && perm & 0o111 == 0 {
            return Err(eacces());
        }
        return Ok(());
    }
    let bits: u32 = if attr.uid == ctx.uid {
        (perm >> 6) & 0o7
    } else if attr.gid == ctx.gid {
        (perm >> 3) & 0o7
    } else {
        perm & 0o7
    };
    if mask & ACCESS_R_OK != 0 && bits & ACCESS_R_OK == 0 {
        return Err(eacces());
    }
    if mask & ACCESS_W_OK != 0 && bits & ACCESS_W_OK == 0 {
        return Err(eacces());
    }
    if mask & ACCESS_X_OK != 0 && bits & ACCESS_X_OK == 0 {
        return Err(eacces());
    }
    Ok(())
}

/// What `readlink` returns for the target the provider names.
pub open spec fn link_shown(reply: Result<Seq<u8>, FsError>) -> Result<Seq<u8>, FsError> {
    match reply {
        Err(e) => Err(e),
        Ok(target) => match symlink_target_check(target) {
            Err(e) => Err(e),
            Ok(_) => Ok(target),
        },
    }
}

/// Check the target that the provider names.
pub fn link_reply(reply: Result<Vec<u8>, FsError>) -> (r: Result<Vec<u8>, FsError>)
    ensures
        bytes_of(r) == link_shown(bytes_of(reply)),
{
    match reply {
        Err(e) => Err(e),
        Ok(target) => match validate_symlink_target_bytes(target.as_slice()) {
            Err(e) => Err(e),
            Ok(_) => Ok(target),
        },
    }
}

impl<P: PathFs> VirtualFs<P> {
    /// Act on the attributes found for `path`: take a lookup reference and build
    /// the entry.
    pub fn enter_reply(&mut self, path: Vec<u8>, reply: Result<VAttr, FsError>) -> (r: Result<
        Entry,
        FsError,
    >)
        ensures
            final(self).same_setup(old(self)),
            entered(old(self).config(), old(self)@, path@, reply, final(self)@, r),
            shaped(path@) ==> kept(old(self)@, final(self)@),
    {
        match reply {
            Err(e) => Err(e),
            Ok(attr) => {
                proof {
                    if consistent(self@) && shaped(path@) {
                        referencing_keeps_consistency(self@, path@);
                    }
                }
                let ino = self.tables_mut().intern_and_reference(path);
                Ok(self.build_entry(ino, &attr))
            },
        }
    }

    /// Look up a name in a directory, taking a lookup reference for what it
    /// finds.
    pub fn do_lookup(&mut self, parent: u64, name: &[u8]) -> (r: Result<Entry, FsError>)
        ensures
            final(self).same_setup(old(self)),
            match lookup_target(old(self)@, parent, name@) {
                Err(e) => r == Err::<Entry, FsError>(e) && final(self)@ == old(self)@,
                Ok(path) => exists|a: Result<VAttr, FsError>| #[trigger]
                    replied_getattr(old(self).backend(), path, a) && entered(
                        old(self).config(),
                        old(self)@,
                        path,
                        a,
                        final(self)@,
                        r,
                    ),
            },
            kept(old(self)@, final(self)@),
    {
        match validate_name(name) {
            Err(e) => {
                return Err(e);
            },
            Ok(_) => {},
        }
        let target = if is_dot(name) {
            self.path_of(parent)
        } else {
            self.child_path(parent, name)
        };
        match target {
            Err(e) => Err(e),
            Ok(path) => {
                let a = self.provider().getattr(path.as_slice());
                proof {
                    assert(replied_getattr(self.backend(), path@, a));
                    if consistent(self@) {
                        resolved_paths_are_shaped(self@, parent, name@);
                    }
                }
                self.enter_reply(path, a)
            },
        }
    }

    /// Show attributes found for an inode.
    pub fn attr_reply(&self, ino: u64, reply: Result<VAttr, FsError>) -> (r: Result<
        (Stat64, Span),
        FsError,
    >)
        ensures
            attr_shown(self.config(), ino, reply, r),
    {
        match reply {
            Err(e) => Err(e),
            Ok(attr) => Ok((vattr_to_stat(ino, &attr), self.settings().attr_timeout)),
        }
    }

    /// The attributes of an inode.
    pub fn do_getattr(&self, ino: u64) -> (r: Result<(Stat64, Span), FsError>)
        ensures
            match path_lookup(self@, ino) {
                Err(e) => r == Err::<(Stat64, Span), FsError>(e),
                Ok(path) => exists|a: Result<VAttr, FsError>| #[trigger]
                    replied_getattr(self.backend(), path, a) && attr_shown(
                        self.config(),
                        ino,
                        a,
                        r,
                    ),
            },
    {
        match self.path_of(ino) {
            Err(e) => Err(e),
            Ok(path) => {
                let a = self.provider().getattr(path.as_slice());
                assert(replied_getattr(self.backend(), path_lookup(self@, ino)->Ok_0, a));
                self.attr_reply(ino, a)
            },
        }
    }

    /// Change attributes of an inode: the selected fields are overlaid on the
    /// current attributes, and the provider is asked for the result.
    pub fn do_setattr(&self, ino: u64, attr: &Stat64, valid: u32) -> (r: Result<
        (Stat64, Span),
        FsError,
    >)
        ensures
            match path_lookup(self@, ino) {
                Err(e) => r == Err::<(Stat64, Span), FsError>(e),
                Ok(path) => exists|a: Result<VAttr, FsError>| #[trigger]
                    replied_getattr(self.backend(), path, a) && (match a {
                        Err(e) => r == Err::<(Stat64, Span), FsError>(e),
                        Ok(current) => exists|atime_now: VTime, mtime_now: VTime|
                            is_now(atime_now) && is_now(mtime_now) && (match #[trigger] overlaid(
                                current,
                                *attr,
                                valid,
                                atime_now,
                                mtime_now,
                            ) {
                                Err(e) => r == Err::<(Stat64, Span), FsError>(e),
                                Ok(target) => exists|b: Result<VAttr, FsError>| #[trigger]
                                    replied_setattr(self.backend(), path, target, valid, b)
                                        && attr_shown(self.config(), ino, b, r),
                            }),
                    }),
            },
    {
        match self.path_of(ino) {
            Err(e) => Err(e),
            Ok(path) => {
                let a = self.provider().getattr(path.as_slice());
                assert(replied_getattr(self.backend(), path_lookup(self@, ino)->Ok_0, a));
                match a {
                    Err(e) => Err(e),
                    Ok(current) => {
                        let atime_now = current_time();
                        let mtime_now = current_time();
                        match overlay_attrs(&current, attr, valid, atime_now, mtime_now) {
                            Err(e) => Err(e),
                            Ok(target) => {
                                let b = self.provider().setattr(path.as_slice(), &target, valid);
                                assert(replied_setattr(self.backend(), path@, target, valid, b));
                                self.attr_reply(ino, b)
                            },
                        }
                    },
                }
            },
        }
    }

    /// The target of a symbolic link.
    pub fn do_readlink(&self, ino: u64) -> (r: Result<Vec<u8>, FsError>)
        ensures
            match path_lookup(self@, ino) {
                Err(e) => bytes_of(r) == Err::<Seq<u8>, FsError>(e),
                Ok(path) => exists|a: Result<Vec<u8>, FsError>| #[trigger]
                    replied_readlink(self.backend(), path, a) && bytes_of(r) == link_shown(
                        bytes_of(a),
                    ),
            },
    {
        match self.path_of(ino) {
            Err(e) => Err(e),
            Ok(path) => {
                let a = self.provider().readlink(path.as_slice());
                assert(replied_readlink(self.backend(), path_lookup(self@, ino)->Ok_0, a));
                link_reply(a)
            },
        }
    }

    /// Check whether the caller may access an inode.
    pub fn do_access(&self, ctx: Context, ino: u64, mask: u32) -> (r: Result<(), FsError>)
        ensures
            match path_lookup(self@, ino) {
                Err(e) => r == Err::<(), FsError>(e),
                Ok(path) => exists|a: Result<VAttr, FsError>| #[trigger]
                    replied_getattr(self.backend(), path, a) && (match a {
                        Err(e) => r == Err::<(), FsError>(e),
                        Ok(attr) => r == access_check(attr, ctx, mask),
                    }),
            },
    {
        match self.path_of(ino) {
            Err(e) => Err(e),
            Ok(path) => {
                let a = self.provider().getattr(path.as_slice());
                assert(replied_getattr(self.backend(), path_lookup(self@, ino)->Ok_0, a));
                match a {
                    Err(e) => Err(e),
                    Ok(attr) => check_access(&attr, ctx, mask),
                }
            },
        }
    }
}

} // verus!
