//! What it means that a provider gave a reply.
//!
//! A provider is free to answer as it likes, and twice the same question need
//! not have the same answer. A contract can still say which call was made, on
//! which arguments, and that the reply it speaks of came out of that call: that
//! is what the predicates here state.

use crate::abi::StatVfs64;
use crate::error::FsError;
use crate::path_fs::{PathFs, VAttr, VDirEntry};
use vstd::prelude::*;

verus! {

/// `r` is a reply of the provider to `getattr`.
pub open spec fn replied_getattr<P: PathFs>(
    p: P,
    path: Seq<u8>,
    r: Result<VAttr, FsError>,
) -> bool {
    exists|path_arg: &[u8]|
        {
            &&& path_arg@ == path
            &&& #[trigger] call_ensures(P::getattr, (&p, path_arg), r)
        }
}

/// `r` is a reply of the provider to `readdir`.
pub open spec fn replied_readdir<P: PathFs>(
    p: P,
    path: Seq<u8>,
    r: Result<Vec<VDirEntry>, FsError>,
) -> bool {
    exists|path_arg: &[u8]|
        {
            &&& path_arg@ == path
            &&& #[trigger] call_ensures(P::readdir, (&p, path_arg), r)
        }
}

/// `r` is a reply of the provider to `read`.
pub open spec fn replied_read<P: PathFs>(
    p: P,
    path: Seq<u8>,
    offset: u64,
    size: u32,
    r: Result<Vec<u8>, FsError>,
) -> bool {
    exists|path_arg: &[u8]|
        {
            &&& path_arg@ == path
            &&& #[trigger] call_ensures(P::read, (&p, path_arg, offset, size), r)
        }
}

/// `r` is a reply of the provider to `write`.
pub open spec fn replied_write<P: PathFs>(
    p: P,
    path: Seq<u8>,
    offset: u64,
    data: Seq<u8>,
    r: Result<usize, FsError>,
) -> bool {
    exists|path_arg: &[u8], data_arg: &[u8]|
        {
            &&& path_arg@ == path
            &&& data_arg@ == data
            &&& #[trigger] call_ensures(P::write, (&p, path_arg, offset, data_arg), r)
        }
}

/// `r` is a reply of the provider to `create`.
pub open spec fn replied_create<P: PathFs>(
    p: P,
    path: Seq<u8>,
    attr: VAttr,
    r: Result<VAttr, FsError>,
) -> bool {
    exists|path_arg: &[u8], attr_arg: &VAttr|
        {
            &&& path_arg@ == path
            &&& *attr_arg == attr
            &&& #[trigger] call_ensures(P::create, (&p, path_arg, attr_arg), r)
        }
}

/// `r` is a reply of the provider to `mkdir`.
pub open spec fn replied_mkdir<P: PathFs>(
    p: P,
    path: Seq<u8>,
    mode: u32,
    r: Result<VAttr, FsError>,
) -> bool {
    exists|path_arg: &[u8]|
        {
            &&& path_arg@ == path
            &&& #[trigger] call_ensures(P::mkdir, (&p, path_arg, mode), r)
        }
}

/// `r` is a reply of the provider to `remove`.
pub open spec fn replied_remove<P: PathFs>(
    p: P,
    path: Seq<u8>,
    r: Result<(), FsError>,
) -> bool {
    exists|path_arg: &[u8]|
        {
            &&& path_arg@ == path
            &&& #[trigger] call_ensures(P::remove, (&p, path_arg), r)
        }
}

/// `r` is a reply of the provider to `rmdir`.
pub open spec fn replied_rmdir<P: PathFs>(
    p: P,
    path: Seq<u8>,
    r: Result<(), FsError>,
) -> bool {
    exists|path_arg: &[u8]|
        {
            &&& path_arg@ == path
            &&& #[trigger] call_ensures(P::rmdir, (&p, path_arg), r)
        }
}

/// `r` is a reply of the provider to `rename_with_flags`.
pub open spec fn replied_rename_with_flags<P: PathFs>(
    p: P,
    from: Seq<u8>,
    to: Seq<u8>,
    flags: u32,
    r: Result<(), FsError>,
) -> bool {
    exists|from_arg: &[u8], to_arg: &[u8]|
        {
            &&& from_arg@ == from
            &&& to_arg@ == to
            &&& #[trigger] call_ensures(P::rename_with_flags, (&p, from_arg, to_arg, flags), r)
        }
}

/// `r` is a reply of the provider to `setattr`.
pub open spec fn replied_setattr<P: PathFs>(
    p: P,
    path: Seq<u8>,
    attr: VAttr,
    valid: u32,
    r: Result<VAttr, FsError>,
) -> bool {
    exists|path_arg: &[u8], attr_arg: &VAttr|
        {
            &&& path_arg@ == path
            &&& *attr_arg == attr
            &&& #[trigger] call_ensures(P::setattr, (&p, path_arg, attr_arg, valid), r)
        }
}

/// `r` is a reply of the provider to `symlink`.
pub open spec fn replied_symlink<P: PathFs>(
    p: P,
    path: Seq<u8>,
    target: Seq<u8>,
    r: Result<VAttr, FsError>,
) -> bool {
    exists|path_arg: &[u8], target_arg: &[u8]|
        {
            &&& path_arg@ == path
            &&& target_arg@ == target
            &&& #[trigger] call_ensures(P::symlink, (&p, path_arg, target_arg), r)
        }
}

/// `r` is a reply of the provider to `readlink`.
pub open spec fn replied_readlink<P: PathFs>(
    p: P,
    path: Seq<u8>,
    r: Result<Vec<u8>, FsError>,
) -> bool {
    exists|path_arg: &[u8]|
        {
            &&& path_arg@ == path
            &&& #[trigger] call_ensures(P::readlink, (&p, path_arg), r)
        }
}

/// `r` is a reply of the provider to `setxattr`.
pub open spec fn replied_setxattr<P: PathFs>(
    p: P,
    path: Seq<u8>,
    name: Seq<u8>,
    value: Seq<u8>,
    flags: u32,
    r: Result<(), FsError>,
) -> bool {
    exists|path_arg: &[u8], name_arg: &[u8], value_arg: &[u8]|
        {
            &&& path_arg@ == path
            &&& name_arg@ == name
            &&& value_arg@ == value
            &&& #[trigger] call_ensures(P::setxattr, (&p, path_arg, name_arg, value_arg, flags), r)
        }
}

/// `r` is a reply of the provider to `getxattr`.
pub open spec fn replied_getxattr<P: PathFs>(
    p: P,
    path: Seq<u8>,
    name: Seq<u8>,
    r: Result<Vec<u8>, FsError>,
) -> bool {
    exists|path_arg: &[u8], name_arg: &[u8]|
        {
            &&& path_arg@ == path
            &&& name_arg@ == name
            &&& #[trigger] call_ensures(P::getxattr, (&p, path_arg, name_arg), r)
        }
}

/// `r` is a reply of the provider to `listxattr`.
pub open spec fn replied_listxattr<P: PathFs>(
    p: P,
    path: Seq<u8>,
    r: Result<Vec<Vec<u8>>, FsError>,
) -> bool {
    exists|path_arg: &[u8]|
        {
            &&& path_arg@ == path
            &&& #[trigger] call_ensures(P::listxattr, (&p, path_arg), r)
        }
}

/// `r` is a reply of the provider to `removexattr`.
pub open spec fn replied_removexattr<P: PathFs>(
    p: P,
    path: Seq<u8>,
    name: Seq<u8>,
    r: Result<(), FsError>,
) -> bool {
    exists|path_arg: &[u8], name_arg: &[u8]|
        {
            &&& path_arg@ == path
            &&& name_arg@ == name
            &&& #[trigger] call_ensures(P::removexattr, (&p, path_arg, name_arg), r)
        }
}

/// `r` is a reply of the provider to `flush`.
pub open spec fn replied_flush<P: PathFs>(
    p: P,
    path: Seq<u8>,
    r: Result<(), FsError>,
) -> bool {
    exists|path_arg: &[u8]|
        {
            &&& path_arg@ == path
            &&& #[trigger] call_ensures(P::flush, (&p, path_arg), r)
        }
}

/// `r` is a reply of the provider to `fsync`.
pub open spec fn replied_fsync<P: PathFs>(
    p: P,
    path: Seq<u8>,
    datasync: bool,
    r: Result<(), FsError>,
) -> bool {
    exists|path_arg: &[u8]|
        {
            &&& path_arg@ == path
            &&& #[trigger] call_ensures(P::fsync, (&p, path_arg, datasync), r)
        }
}

/// `r` is a reply of the provider to `fsyncdir`.
pub open spec fn replied_fsyncdir<P: PathFs>(
    p: P,
    path: Seq<u8>,
    r: Result<(), FsError>,
) -> bool {
    exists|path_arg: &[u8]|
        {
            &&& path_arg@ == path
            &&& #[trigger] call_ensures(P::fsyncdir, (&p, path_arg), r)
        }
}

/// The byte strings of a list of slices.
pub open spec fn slice_views(paths: Seq<&[u8]>) -> Seq<Seq<u8>> {
    Seq::new(paths.len(), |i: int| paths[i]@)
}

/// `r` is a reply of the provider to `getattr_many`.
pub open spec fn replied_getattr_many<P: PathFs>(
    p: P,
    paths: Seq<Seq<u8>>,
    r: Result<Vec<Result<VAttr, FsError>>, FsError>,
) -> bool {
    exists|paths_arg: &[&[u8]]|
        {
            &&& slice_views(paths_arg@) == paths
            &&& #[trigger] call_ensures(P::getattr_many, (&p, paths_arg), r)
        }
}

/// `r` is a reply of the provider to `statfs`.
pub open spec fn replied_statfs<P: PathFs>(p: P, r: Result<StatVfs64, FsError>) -> bool {
    call_ensures(P::statfs, (&p,), r)
}

} // verus!
