//! What a provider does that leaves a method to the trait.

use super::naming::lemma_readdir_name;
use super::tree::remove_is;
use super::{getattr_is, proper_name, readdir_is};
use crate::abi::StatVfs64;
use crate::bytes::{dot, dotdot};
use crate::error::FsError;
use crate::name_validation::readdir_name_check;
use crate::path_fs::{
    default_statvfs, entry_views, lists_invalid, lists_visible, rmdir_check, NodeKind, PathFs,
    VAttr, VDirEntry,
};
use vstd::prelude::*;

verus! {

/// A provider of which only attributes, listings, contents, removals and plain renames are
/// used: everything else is what the trait provides.
pub struct Reduced<P: PathFs> {
    pub inner: P,
}

impl<P: PathFs> PathFs for Reduced<P> {
    fn getattr(&self, path: &[u8]) -> (r: Result<VAttr, FsError>)
        ensures
            call_ensures(P::getattr, (&self.inner, path), r),
    {
        self.inner.getattr(path)
    }

    fn readdir(&self, path: &[u8]) -> (r: Result<Vec<VDirEntry>, FsError>)
        ensures
            call_ensures(P::readdir, (&self.inner, path), r),
    {
        self.inner.readdir(path)
    }

    fn read(&self, path: &[u8], offset: u64, size: u32) -> (r: Result<Vec<u8>, FsError>)
        ensures
            call_ensures(P::read, (&self.inner, path, offset, size), r),
    {
        self.inner.read(path, offset, size)
    }

    fn remove(&self, path: &[u8]) -> (r: Result<(), FsError>)
        ensures
            call_ensures(P::remove, (&self.inner, path), r),
    {
        self.inner.remove(path)
    }

    fn rename(&self, from: &[u8], to: &[u8]) -> (r: Result<(), FsError>)
        ensures
            call_ensures(P::rename, (&self.inner, from, to), r),
    {
        self.inner.rename(from, to)
    }
}

/// Every answer to a plain rename of `from` to `to` is `reply`.
pub open spec fn plain_rename_is<P: PathFs>(
    p: P,
    from: Seq<u8>,
    to: Seq<u8>,
    reply: Result<(), FsError>,
) -> bool {
    forall|a: &[u8], b: &[u8], r: Result<(), FsError>|
        a@ == from && b@ == to && #[trigger] call_ensures(P::rename, (&p, a, b), r) ==> r == reply
}

/// A rename that may not replace is refused with `EEXIST` exactly where there is something
/// to replace, and an exchange with `ENOSYS`. Any other is a plain rename.
pub proof fn provided_renames_replace_nothing_unasked<P: PathFs>(
    p: Reduced<P>,
    from: &[u8],
    to: &[u8],
    flags: u32,
    found: Result<VAttr, FsError>,
    reply: Result<(), FsError>,
    r: Result<(), FsError>,
)
    requires
        getattr_is(p.inner, to@, found),
        plain_rename_is(p.inner, from@, to@, reply),
        call_ensures(Reduced::<P>::rename_with_flags, (&p, from, to, flags), r),
    ensures
        flags & 2 != 0 ==> r == Err::<(), FsError>(FsError::Os(38)),
        flags & 2 == 0 && flags & 1 != 0 && found is Ok ==> r == Err::<(), FsError>(
            FsError::Os(17),
        ),
        flags & 2 == 0 && (flags & 1 == 0 || found is Err) ==> r == reply,
{
}

/// A directory is removed where it is one and names nothing but `.` and `..`; what is not a
/// directory is refused with `ENOTDIR`, a directory that shows a name with `ENOTEMPTY`, and
/// one whose names cannot be shown with `EIO`.
pub proof fn provided_removals_take_empty_directories<P: PathFs>(
    p: Reduced<P>,
    path: &[u8],
    found: Result<VAttr, FsError>,
    listing: Result<Seq<(Seq<u8>, NodeKind)>, FsError>,
    reply: Result<(), FsError>,
    r: Result<(), FsError>,
)
    requires
        getattr_is(p.inner, path@, found),
        readdir_is(p.inner, path@, listing),
        remove_is(p.inner, path@, reply),
        call_ensures(Reduced::<P>::rmdir, (&p, path), r),
    ensures
        match found {
            Err(e) => r == Err::<(), FsError>(e),
            Ok(attr) => if attr.kind != NodeKind::Dir {
                r == Err::<(), FsError>(FsError::Os(20))
            } else {
                match listing {
                    Err(e) => r == Err::<(), FsError>(e),
                    Ok(seen) => if exists|i: int|
                        0 <= i < seen.len() && proper_name((#[trigger] seen[i]).0) {
                        r == Err::<(), FsError>(FsError::Os(39))
                    } else if exists|i: int|
                        0 <= i < seen.len() && (#[trigger] seen[i]).0 != seq![46u8] && seen[i].0
                            != seq![46u8, 46u8] {
                        r == Err::<(), FsError>(FsError::Os(5))
                    } else {
                        r == reply
                    },
                }
            },
        },
{
    assert(dot() =~= seq![46u8]);
    assert(dotdot() =~= seq![46u8, 46u8]);
    if found is Ok && found->Ok_0.kind == NodeKind::Dir && listing is Ok {
        let seen = listing->Ok_0;
        let l = choose|l: Result<Vec<VDirEntry>, FsError>| #[trigger]
            call_ensures(Reduced::<P>::readdir, (&p, path), l) && (match l {
                Err(e) => r == Err::<(), FsError>(e),
                Ok(entries) => match rmdir_check(entry_views(entries@)) {
                    Err(e) => r == Err::<(), FsError>(e),
                    Ok(_) => call_ensures(Reduced::<P>::remove, (&p, path), r),
                },
            });
        let names = entry_views(l->Ok_0@);
        assert(call_ensures(P::readdir, (&p.inner, path), l));
        assert(names.len() == seen.len());
        assert forall|i: int| 0 <= i < seen.len() implies (#[trigger] seen[i]).0 == names[i].name
            && (readdir_name_check(names[i].name) is Ok <==> proper_name(names[i].name)) by {
            lemma_readdir_name(names[i].name);
        }
        if lists_visible(names) {
            let i = choose|i: int|
                0 <= i < names.len() && readdir_name_check(#[trigger] names[i].name) is Ok;
            assert(proper_name(seen[i].0));
        }
        if lists_invalid(names) {
            let i = choose|i: int|
                {
                    &&& 0 <= i < names.len()
                    &&& #[trigger] names[i].name != dot()
                    &&& names[i].name != dotdot()
                    &&& readdir_name_check(names[i].name) is Err
                };
            assert(seen[i].0 != seq![46u8] && seen[i].0 != seq![46u8, 46u8]);
        }
        if exists|i: int| 0 <= i < seen.len() && proper_name((#[trigger] seen[i]).0) {
            let i = choose|i: int| 0 <= i < seen.len() && proper_name((#[trigger] seen[i]).0);
            assert(readdir_name_check(names[i].name) is Ok);
        } else if exists|i: int|
            0 <= i < seen.len() && (#[trigger] seen[i]).0 != seq![46u8] && seen[i].0 != seq![
                46u8,
                46u8,
            ] {
            let i = choose|i: int|
                0 <= i < seen.len() && (#[trigger] seen[i]).0 != seq![46u8] && seen[i].0 != seq![
                    46u8,
                    46u8,
                ];
            assert(names[i].name != dot());
        }
    }
}

/// The attributes of several paths are those of each path, in order.
pub proof fn provided_batches_ask_for_each_path<P: PathFs>(
    p: Reduced<P>,
    paths: &[&[u8]],
    found: Seq<Result<VAttr, FsError>>,
    r: Result<Vec<Result<VAttr, FsError>>, FsError>,
)
    requires
        found.len() == paths@.len(),
        forall|i: int|
            0 <= i < paths@.len() ==> getattr_is(p.inner, paths@[i]@, #[trigger] found[i]),
        call_ensures(Reduced::<P>::getattr_many, (&p, paths), r),
    ensures
        r is Ok,
        r->Ok_0@ == found,
{
    let replies = r->Ok_0@;
    assert forall|i: int| 0 <= i < found.len() implies replies[i] == #[trigger] found[i] by {
        assert(call_ensures(Reduced::<P>::getattr, (&p, paths[i]), replies[i]));
        assert(call_ensures(P::getattr, (&p.inner, paths@[i]), replies[i]));
    }
    assert(replies =~= found);
}

/// What such a provider cannot change it refuses to change, with `ENOSYS`; it has no links
/// and no extended attributes.
pub proof fn provided_changes_are_refused<P: PathFs>(
    p: Reduced<P>,
    path: &[u8],
    other: &[u8],
    value: &[u8],
    attr: &VAttr,
    number: u64,
    bits: u32,
    written: Result<usize, FsError>,
    created: Result<VAttr, FsError>,
    made: Result<VAttr, FsError>,
    changed: Result<VAttr, FsError>,
    linked: Result<VAttr, FsError>,
    target: Result<Vec<u8>, FsError>,
    stored: Result<(), FsError>,
    got: Result<Vec<u8>, FsError>,
    dropped: Result<(), FsError>,
    names: Result<Vec<Vec<u8>>, FsError>,
)
    requires
        call_ensures(Reduced::<P>::write, (&p, path, number, value), written),
        call_ensures(Reduced::<P>::create, (&p, path, attr), created),
        call_ensures(Reduced::<P>::mkdir, (&p, path, bits), made),
        call_ensures(Reduced::<P>::setattr, (&p, path, attr, bits), changed),
        call_ensures(Reduced::<P>::symlink, (&p, path, other), linked),
        call_ensures(Reduced::<P>::readlink, (&p, path), target),
        call_ensures(Reduced::<P>::setxattr, (&p, path, other, value, bits), stored),
        call_ensures(Reduced::<P>::getxattr, (&p, path, other), got),
        call_ensures(Reduced::<P>::removexattr, (&p, path, other), dropped),
        call_ensures(Reduced::<P>::listxattr, (&p, path), names),
    ensures
        written == Err::<usize, FsError>(FsError::Os(38)),
        created == Err::<VAttr, FsError>(FsError::Os(38)),
        made == Err::<VAttr, FsError>(FsError::Os(38)),
        changed == Err::<VAttr, FsError>(FsError::Os(38)),
        linked == Err::<VAttr, FsError>(FsError::Os(38)),
        target == Err::<Vec<u8>, FsError>(FsError::Os(38)),
        stored == Err::<(), FsError>(FsError::Os(38)),
        got == Err::<Vec<u8>, FsError>(FsError::Os(38)),
        dropped == Err::<(), FsError>(FsError::Os(38)),
        names is Ok && names->Ok_0@.len() == 0,
{
}

/// Such a provider has nothing to flush or to sync, and shows an unlimited volume with blocks
/// of 4096 bytes and names of up to 255.
pub proof fn provided_volumes_are_unlimited<P: PathFs>(
    p: Reduced<P>,
    path: &[u8],
    datasync: bool,
    flushed: Result<(), FsError>,
    synced: Result<(), FsError>,
    refreshed: Result<(), FsError>,
    stat: Result<StatVfs64, FsError>,
    plain: StatVfs64,
)
    requires
        call_ensures(Reduced::<P>::flush, (&p, path), flushed),
        call_ensures(Reduced::<P>::fsync, (&p, path, datasync), synced),
        call_ensures(Reduced::<P>::fsyncdir, (&p, path), refreshed),
        call_ensures(Reduced::<P>::statfs, (&p,), stat),
        call_ensures(default_statvfs, (), plain),
    ensures
        flushed is Ok && synced is Ok && refreshed is Ok,
        stat == Ok::<StatVfs64, FsError>(plain),
        plain.f_bsize == 4096 && plain.f_frsize == 4096 && plain.f_namemax == 255,
        plain.f_blocks == 0 && plain.f_bfree == 0 && plain.f_bavail == 0,
        plain.f_files == 0 && plain.f_ffree == 0,
{
}

} // verus!
