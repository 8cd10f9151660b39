//! Server-side RPC dispatch: turn wire requests into
//! [`PathFs`](crate::path_fs::PathFs) calls.
//!
//! [`dispatch`] answers one [`VfsRequest`] from a concrete provider, translating
//! any error to the Linux errno carried on the wire. The serve loop drives it
//! one request at a time per connection, so that directory removal (emptiness
//! check and delete) cannot race a concurrent create on the same connection.

use super::limits::{clamp_io_size, clamp_write_len, clamped_size};
use super::messages::{
    attr_of_wire, attr_wire, entry_wire, entry_wire_views, statfs_wire, RequestV, ResponseV,
    StatFsWire, VAttrResult, VAttrWire, VDirEntryWire, VfsRequest, VfsResponse,
};
use super::protocol::{MAX_BATCH_PATHS, MAX_IO_SIZE, MAX_READDIR_ENTRIES};
use crate::abi::{StatVfs64, SETATTR_ALL};
use crate::bytes::views;
use crate::error::{DataFault, FsError};
use crate::name_validation::{
    path_check, symlink_target_check, validate_provider_path_bytes,
    validate_symlink_target_bytes, validate_xattr_name_bytes, xattr_name_check,
};
use crate::path_fs::{entry_views, NodeKind, PathFs, VAttr, VDirEntry, VDirEntryV};
use crate::platform::{einval, provider_errno_to_wire, wire_errno, LINUX_EINVAL, LINUX_ENOENT};
use crate::replies::{
    replied_create, replied_flush, replied_fsync, replied_fsyncdir, replied_getattr,
    replied_getxattr, replied_listxattr, replied_mkdir, replied_read, replied_readdir,
    replied_readlink, replied_remove, replied_removexattr, replied_rename_with_flags,
    replied_rmdir, replied_setattr, replied_setxattr, replied_statfs, replied_symlink,
    replied_write,
};
use crate::vfs::bytes_of;
use crate::vfs::remove_ops::{check_rename_flags, rename_flags_check};
use crate::vfs::xattr_ops::{names_check, names_of, validate_xattr_names};
use vstd::prelude::*;

verus! {

/// The verdict on a list of paths: that on the first invalid one.
pub open spec fn paths_check(paths: Seq<Seq<u8>>) -> Result<(), FsError>
    decreases paths.len(),
{
    if paths.len() == 0 {
        Ok(())
    } else {
        match paths_check(paths.drop_last()) {
            Err(e) => Err(e),
            Ok(_) => path_check(paths.last()),
        }
    }
}

/// The verdict on a path and an extended-attribute name.
pub open spec fn path_and_xattr_check(path: Seq<u8>, name: Seq<u8>) -> Result<(), FsError> {
    match path_check(path) {
        Err(e) => Err(e),
        Ok(_) => xattr_name_check(name),
    }
}

/// The verdict on the paths and names of a request: those the provider must not
/// be asked to serve are rejected.
pub open spec fn request_check(req: RequestV) -> Result<(), FsError> {
    match req {
        RequestV::GetAttr { path } => path_check(path),
        RequestV::ReadDir { path } => path_check(path),
        RequestV::ReadLink { path } => path_check(path),
        RequestV::Read { path, .. } => path_check(path),
        RequestV::Write { path, .. } => path_check(path),
        RequestV::Create { path, .. } => path_check(path),
        RequestV::Mkdir { path, .. } => path_check(path),
        RequestV::Remove { path } => path_check(path),
        RequestV::SetAttr { path, .. } => path_check(path),
        RequestV::ListXattr { path } => path_check(path),
        RequestV::Flush { path } => path_check(path),
        RequestV::Fsync { path, .. } => path_check(path),
        RequestV::FsyncDir { path } => path_check(path),
        RequestV::SetXattr { path, name, .. } => path_and_xattr_check(path, name),
        RequestV::GetXattr { path, name } => path_and_xattr_check(path, name),
        RequestV::RemoveXattr { path, name } => path_and_xattr_check(path, name),
        RequestV::GetAttrMany { paths } => paths_check(paths),
        RequestV::Rename { from, to, .. } => match path_check(from) {
            Err(e) => Err(e),
            Ok(_) => path_check(to),
        },
        RequestV::Symlink { path, target } => match path_check(path) {
            Err(e) => Err(e),
            Ok(_) => symlink_target_check(target),
        },
        RequestV::StatFs => Ok(()),
    }
}

/// A prefix of a list of paths that is refused makes the list refused alike.
proof fn lemma_paths_check_prefix(paths: Seq<Seq<u8>>, n: int)
    requires
        0 <= n <= paths.len(),
        paths_check(paths.take(n)) is Err,
    ensures
        paths_check(paths) == paths_check(paths.take(n)),
    decreases paths.len() - n,
{
    if n < paths.len() {
        assert(paths.take(n + 1).drop_last() =~= paths.take(n));
        lemma_paths_check_prefix(paths, n + 1);
    } else {
        assert(paths.take(n) =~= paths);
    }
}

/// Check a list of paths.
fn validate_paths(paths: &Vec<Vec<u8>>) -> (r: Result<(), FsError>)
    ensures
        r == paths_check(views(paths@)),
{
    let ghost all = views(paths@);
    let mut i: usize = 0;
    assert(all.take(0) =~= Seq::<Seq<u8>>::empty());
    while i < paths.len()
        invariant
            i <= paths.len(),
            all == views(paths@),
            paths_check(all.take(i as int)) is Ok,
        decreases paths.len() - i,
    {
        proof {
            assert(all.take(i + 1).drop_last() =~= all.take(i as int));
            assert(all.take(i + 1).last() == paths@[i as int]@);
        }
        match validate_provider_path_bytes(paths[i].as_slice()) {
            Err(e) => {
                proof {
                    lemma_paths_check_prefix(all, i + 1);
                }
                return Err(e);
            },
            Ok(_) => {},
        }
        i += 1;
    }
    assert(all.take(all.len() as int) =~= all);
    assert(paths_check(all)->Ok_0 == ());
    Ok(())
}

/// Check a path and an extended-attribute name.
fn validate_path_and_xattr(path: &Vec<u8>, name: &Vec<u8>) -> (r: Result<(), FsError>)
    ensures
        r == path_and_xattr_check(path@, name@),
{
    match validate_provider_path_bytes(path.as_slice()) {
        Err(e) => Err(e),
        Ok(_) => validate_xattr_name_bytes(name.as_slice()),
    }
}

/// Reject absolute guest paths and names the provider must not be asked to
/// serve.
pub fn validate_request_paths(req: &VfsRequest) -> (r: Result<(), FsError>)
    ensures
        r == request_check(req@),
{
    match req {
        VfsRequest::GetAttr { path } => validate_provider_path_bytes(path.as_slice()),
        VfsRequest::ReadDir { path } => validate_provider_path_bytes(path.as_slice()),
        VfsRequest::ReadLink { path } => validate_provider_path_bytes(path.as_slice()),
        VfsRequest::Read { path, offset: _, size: _ } => validate_provider_path_bytes(
            path.as_slice(),
        ),
        VfsRequest::Write { path, offset: _, data: _ } => validate_provider_path_bytes(
            path.as_slice(),
        ),
        VfsRequest::Create { path, attr: _ } => validate_provider_path_bytes(path.as_slice()),
        VfsRequest::Mkdir { path, mode: _ } => validate_provider_path_bytes(path.as_slice()),
        VfsRequest::Remove { path } => validate_provider_path_bytes(path.as_slice()),
        VfsRequest::SetAttr { path, attr: _, valid: _ } => validate_provider_path_bytes(
            path.as_slice(),
        ),
        VfsRequest::ListXattr { path } => validate_provider_path_bytes(path.as_slice()),
        VfsRequest::Flush { path } => validate_provider_path_bytes(path.as_slice()),
        VfsRequest::Fsync { path, datasync: _ } => validate_provider_path_bytes(path.as_slice()),
        VfsRequest::FsyncDir { path } => validate_provider_path_bytes(path.as_slice()),
        VfsRequest::SetXattr { path, name, value: _, flags: _ } => validate_path_and_xattr(
            path,
            name,
        ),
        VfsRequest::GetXattr { path, name } => validate_path_and_xattr(path, name),
        VfsRequest::RemoveXattr { path, name } => validate_path_and_xattr(path, name),
        VfsRequest::GetAttrMany { paths } => validate_paths(paths),
        VfsRequest::Rename { from, to, flags: _ } => match validate_provider_path_bytes(
            from.as_slice(),
        ) {
            Err(e) => Err(e),
            Ok(_) => validate_provider_path_bytes(to.as_slice()),
        },
        VfsRequest::Symlink { path, target } => match validate_provider_path_bytes(
            path.as_slice(),
        ) {
            Err(e) => Err(e),
            Ok(_) => validate_symlink_target_bytes(target.as_slice()),
        },
        VfsRequest::StatFs => Ok(()),
    }
}

/// The content of an answer.
pub open spec fn answer_view(r: Result<VfsResponse, FsError>) -> Result<ResponseV, FsError> {
    match r {
        Ok(resp) => Ok(resp@),
        Err(e) => Err(e),
    }
}

/// An answer as it is sent: an error becomes its Linux errno.
pub open spec fn on_wire(r: Result<ResponseV, FsError>) -> ResponseV {
    match r {
        Ok(resp) => resp,
        Err(e) => ResponseV::Errno(wire_errno(e)),
    }
}

/// The answer with node attributes.
pub open spec fn attr_answer(reply: Result<VAttr, FsError>) -> Result<ResponseV, FsError> {
    match reply {
        Ok(attr) => Ok(ResponseV::Attr(attr_wire(attr))),
        Err(e) => Err(e),
    }
}

/// Answer with node attributes.
pub fn answer_attr(reply: Result<VAttr, FsError>) -> (r: Result<VfsResponse, FsError>)
    ensures
        answer_view(r) == attr_answer(reply),
{
    match reply {
        Ok(attr) => Ok(VfsResponse::Attr(VAttrWire::from(&attr))),
        Err(e) => Err(e),
    }
}

/// The answer of one path in a batch: its failure does not fail the batch.
pub open spec fn batch_answer(reply: Result<VAttr, FsError>) -> VAttrResult {
    match reply {
        Ok(attr) => VAttrResult::Found(attr_wire(attr)),
        Err(e) => VAttrResult::Errno(wire_errno(e)),
    }
}

/// Answer for one path in a batch.
pub fn answer_in_batch(reply: Result<VAttr, FsError>) -> (r: VAttrResult)
    ensures
        r == batch_answer(reply),
{
    match reply {
        Ok(attr) => VAttrResult::Found(VAttrWire::from(&attr)),
        Err(e) => VAttrResult::Errno(provider_errno_to_wire(e)),
    }
}

/// The answer with nothing but success.
pub open spec fn done_answer(reply: Result<(), FsError>) -> Result<ResponseV, FsError> {
    match reply {
        Ok(_) => Ok(ResponseV::Done),
        Err(e) => Err(e),
    }
}

/// Answer with nothing but success.
pub fn answer_done(reply: Result<(), FsError>) -> (r: Result<VfsResponse, FsError>)
    ensures
        answer_view(r) == done_answer(reply),
{
    match reply {
        Ok(_) => Ok(VfsResponse::Done),
        Err(e) => Err(e),
    }
}

/// The entries of a reply.
pub open spec fn entries_view(r: Result<Vec<VDirEntry>, FsError>) -> Result<
    Seq<VDirEntryV>,
    FsError,
> {
    match r {
        Ok(entries) => Ok(entry_views(entries@)),
        Err(e) => Err(e),
    }
}

/// The answer with a directory listing, which must not be too long.
pub open spec fn dir_answer(reply: Result<Seq<VDirEntryV>, FsError>) -> Result<
    ResponseV,
    FsError,
> {
    match reply {
        Ok(entries) => if entries.len() > MAX_READDIR_ENTRIES {
            Err(FsError::Os(LINUX_EINVAL))
        } else {
            Ok(ResponseV::Dir(Seq::new(entries.len(), |i: int| entry_wire(entries[i]))))
        },
        Err(e) => Err(e),
    }
}

/// Answer with a directory listing.
pub fn answer_dir(reply: Result<Vec<VDirEntry>, FsError>) -> (r: Result<VfsResponse, FsError>)
    ensures
        answer_view(r) == dir_answer(entries_view(reply)),
{
    let entries = match reply {
        Err(e) => {
            return Err(e);
        },
        Ok(entries) => entries,
    };
    assert(entry_views(entries@).len() == entries@.len());
    if entries.len() > MAX_READDIR_ENTRIES {
        return Err(einval());
    }
    let mut wire: Vec<VDirEntryWire> = Vec::new();
    let mut i: usize = 0;
    while i < entries.len()
        invariant
            i <= entries.len(),
            wire.len() == i,
            forall|j: int| 0 <= j < i ==> (#[trigger] wire@[j])@ == entry_wire(entries@[j]@),
        decreases entries.len() - i,
    {
        wire.push(VDirEntryWire::from_entry(&entries[i]));
        i += 1;
    }
    proof {
        let listed = entry_views(entries@);
        assert(entry_wire_views(wire@) =~= Seq::new(
            listed.len(),
            |i: int| entry_wire(listed[i]),
        ));
    }
    Ok(VfsResponse::Dir(wire))
}

/// The answer with raw bytes.
pub open spec fn bytes_answer(reply: Result<Seq<u8>, FsError>) -> Result<ResponseV, FsError> {
    match reply {
        Ok(data) => Ok(ResponseV::Bytes(data)),
        Err(e) => Err(e),
    }
}

/// Answer with raw bytes.
pub fn answer_bytes(reply: Result<Vec<u8>, FsError>) -> (r: Result<VfsResponse, FsError>)
    ensures
        answer_view(r) == bytes_answer(bytes_of(reply)),
{
    match reply {
        Ok(data) => Ok(VfsResponse::Bytes(data)),
        Err(e) => Err(e),
    }
}

/// The answer with the target of a link, which must be a valid one.
pub open spec fn link_answer(reply: Result<Seq<u8>, FsError>) -> Result<ResponseV, FsError> {
    match reply {
        Ok(target) => match symlink_target_check(target) {
            Ok(_) => Ok(ResponseV::Bytes(target)),
            Err(e) => Err(e),
        },
        Err(e) => Err(e),
    }
}

/// Answer with the target of a link.
pub fn answer_link(reply: Result<Vec<u8>, FsError>) -> (r: Result<VfsResponse, FsError>)
    ensures
        answer_view(r) == link_answer(bytes_of(reply)),
{
    match reply {
        Ok(target) => match validate_symlink_target_bytes(target.as_slice()) {
            Ok(_) => Ok(VfsResponse::Bytes(target)),
            Err(e) => Err(e),
        },
        Err(e) => Err(e),
    }
}

/// The answer with the data of a read of `size` bytes, which must not be more.
pub open spec fn data_answer(reply: Result<Seq<u8>, FsError>, size: u32) -> Result<
    ResponseV,
    FsError,
> {
    match reply {
        Ok(data) => if data.len() > size {
            Err(FsError::InvalidData(DataFault::ReadTooLong))
        } else {
            Ok(ResponseV::Bytes(data))
        },
        Err(e) => Err(e),
    }
}

/// Answer with the data of a read of `size` bytes.
pub fn answer_data(reply: Result<Vec<u8>, FsError>, size: u32) -> (r: Result<
    VfsResponse,
    FsError,
>)
    ensures
        answer_view(r) == data_answer(bytes_of(reply), size),
{
    match reply {
        Ok(data) => {
            if data.len() > size as usize {
                return Err(FsError::InvalidData(DataFault::ReadTooLong));
            }
            Ok(VfsResponse::Bytes(data))
        },
        Err(e) => Err(e),
    }
}

/// The answer with the count of a write of `len` bytes, which must not be more.
pub open spec fn count_answer(reply: Result<usize, FsError>, len: nat) -> Result<
    ResponseV,
    FsError,
> {
    match reply {
        Ok(count) => if count > len {
            Err(FsError::InvalidData(DataFault::WriteTooLong))
        } else {
            Ok(ResponseV::Count(count as u64))
        },
        Err(e) => Err(e),
    }
}

/// Answer with the count of a write of `len` bytes.
pub fn answer_count(reply: Result<usize, FsError>, len: usize) -> (r: Result<
    VfsResponse,
    FsError,
>)
    ensures
        answer_view(r) == count_answer(reply, len as nat),
{
    match reply {
        Ok(count) => {
            if count > len {
                return Err(FsError::InvalidData(DataFault::WriteTooLong));
            }
            Ok(VfsResponse::Count(count as u64))
        },
        Err(e) => Err(e),
    }
}

/// The answer with extended-attribute names, which must be valid ones.
pub open spec fn names_answer(reply: Result<Seq<Seq<u8>>, FsError>) -> Result<
    ResponseV,
    FsError,
> {
    match reply {
        Ok(names) => match names_check(names) {
            Ok(_) => Ok(ResponseV::Names(names)),
            Err(e) => Err(e),
        },
        Err(e) => Err(e),
    }
}

/// Answer with extended-attribute names.
pub fn answer_names(reply: Result<Vec<Vec<u8>>, FsError>) -> (r: Result<VfsResponse, FsError>)
    ensures
        answer_view(r) == names_answer(names_of(reply)),
{
    match reply {
        Ok(names) => match validate_xattr_names(&names) {
            Ok(_) => Ok(VfsResponse::Names(names)),
            Err(e) => Err(e),
        },
        Err(e) => Err(e),
    }
}

/// The answer with volume statistics.
pub open spec fn statfs_answer(reply: Result<StatVfs64, FsError>) -> Result<ResponseV, FsError> {
    match reply {
        Ok(stat) => Ok(ResponseV::StatFs(statfs_wire(stat))),
        Err(e) => Err(e),
    }
}

/// Answer with volume statistics.
pub fn answer_statfs(reply: Result<StatVfs64, FsError>) -> (r: Result<VfsResponse, FsError>)
    ensures
        answer_view(r) == statfs_answer(reply),
{
    match reply {
        Ok(stat) => Ok(VfsResponse::StatFs(StatFsWire::from(&stat))),
        Err(e) => Err(e),
    }
}

/// The answer to a removal: a directory goes through `rmdir`, and anything else
/// through `remove`, which also decides where the path is absent.
pub open spec fn removal_answered<P: PathFs>(
    p: P,
    path: Seq<u8>,
    r: Result<ResponseV, FsError>,
) -> bool {
    exists|a: Result<VAttr, FsError>| #[trigger]
        replied_getattr(p, path, a) && (match a {
            Ok(attr) => if attr.kind == NodeKind::Dir {
                exists|b: Result<(), FsError>| #[trigger]
                    replied_rmdir(p, path, b) && r == done_answer(b)
            } else {
                exists|b: Result<(), FsError>| #[trigger]
                    replied_remove(p, path, b) && r == done_answer(b)
            },
            Err(e) => if e != FsError::Os(LINUX_ENOENT) {
                r == Err::<ResponseV, FsError>(e)
            } else {
                exists|b: Result<(), FsError>| #[trigger]
                    replied_remove(p, path, b) && r == done_answer(b)
            },
        })
}

/// The answer to a batched getattr: one result per path, in order.
pub open spec fn batch_answered<P: PathFs>(
    p: P,
    paths: Seq<Seq<u8>>,
    r: Result<ResponseV, FsError>,
) -> bool {
    if paths.len() > MAX_BATCH_PATHS {
        r == Err::<ResponseV, FsError>(FsError::Os(LINUX_EINVAL))
    } else {
        exists|replies: Seq<Result<VAttr, FsError>>|
            {
                &&& #[trigger] replies.len() == paths.len()
                &&& forall|i: int|
                    0 <= i < paths.len() ==> replied_getattr(p, paths[i], #[trigger] replies[i])
                &&& r == Ok::<ResponseV, FsError>(
                    ResponseV::AttrMany(
                        Seq::new(replies.len(), |i: int| batch_answer(replies[i])),
                    ),
                )
            }
    }
}

/// The answer to a request: what is wrong with it, or what the provider's reply
/// to the one call it stands for amounts to.
pub open spec fn answered<P: PathFs>(p: P, req: RequestV, r: Result<ResponseV, FsError>) -> bool {
    match request_check(req) {
        Err(e) => r == Err::<ResponseV, FsError>(e),
        Ok(_) => match req {
            RequestV::GetAttr { path } => exists|a: Result<VAttr, FsError>| #[trigger]
                replied_getattr(p, path, a) && r == attr_answer(a),
            RequestV::GetAttrMany { paths } => batch_answered(p, paths, r),
            RequestV::ReadDir { path } => exists|a: Result<Vec<VDirEntry>, FsError>| #[trigger]
                replied_readdir(p, path, a) && r == dir_answer(entries_view(a)),
            RequestV::ReadLink { path } => exists|a: Result<Vec<u8>, FsError>| #[trigger]
                replied_readlink(p, path, a) && r == link_answer(bytes_of(a)),
            RequestV::Read { path, offset, size } => exists|a: Result<Vec<u8>, FsError>| #[trigger]
                replied_read(p, path, offset, clamped_size(size), a) && r == data_answer(
                    bytes_of(a),
                    clamped_size(size),
                ),
            RequestV::Write { path, offset, data } => if data.len() > MAX_IO_SIZE {
                r == Err::<ResponseV, FsError>(FsError::Os(LINUX_EINVAL))
            } else {
                exists|a: Result<usize, FsError>| #[trigger]
                    replied_write(p, path, offset, data, a) && r == count_answer(a, data.len())
            },
            RequestV::Create { path, attr } => match attr_of_wire(attr) {
                Err(e) => r == Err::<ResponseV, FsError>(e),
                Ok(attr) => exists|a: Result<VAttr, FsError>| #[trigger]
                    replied_create(p, path, attr, a) && r == attr_answer(a),
            },
            RequestV::Mkdir { path, mode } => exists|a: Result<VAttr, FsError>| #[trigger]
                replied_mkdir(p, path, mode, a) && r == attr_answer(a),
            RequestV::Remove { path } => removal_answered(p, path, r),
            RequestV::Rename { from, to, flags } => match rename_flags_check(flags) {
                Err(e) => r == Err::<ResponseV, FsError>(e),
                Ok(_) => exists|a: Result<(), FsError>| #[trigger]
                    replied_rename_with_flags(p, from, to, flags, a) && r == done_answer(a),
            },
            RequestV::SetAttr { path, attr, valid } => match attr_of_wire(attr) {
                Err(e) => r == Err::<ResponseV, FsError>(e),
                Ok(attr) => exists|a: Result<VAttr, FsError>| #[trigger]
                    replied_setattr(p, path, attr, valid & SETATTR_ALL, a) && r == attr_answer(a),
            },
            RequestV::Symlink { path, target } => exists|a: Result<VAttr, FsError>| #[trigger]
                replied_symlink(p, path, target, a) && r == attr_answer(a),
            RequestV::SetXattr { path, name, value, flags } => exists|a: Result<(), FsError>|
             #[trigger]
                replied_setxattr(p, path, name, value, flags, a) && r == done_answer(a),
            RequestV::GetXattr { path, name } => exists|a: Result<Vec<u8>, FsError>| #[trigger]
                replied_getxattr(p, path, name, a) && r == bytes_answer(bytes_of(a)),
            RequestV::ListXattr { path } => exists|a: Result<Vec<Vec<u8>>, FsError>| #[trigger]
                replied_listxattr(p, path, a) && r == names_answer(names_of(a)),
            RequestV::RemoveXattr { path, name } => exists|a: Result<(), FsError>| #[trigger]
                replied_removexattr(p, path, name, a) && r == done_answer(a),
            RequestV::Flush { path } => exists|a: Result<(), FsError>| #[trigger]
                replied_flush(p, path, a) && r == done_answer(a),
            RequestV::Fsync { path, datasync } => exists|a: Result<(), FsError>| #[trigger]
                replied_fsync(p, path, datasync, a) && r == done_answer(a),
            RequestV::FsyncDir { path } => exists|a: Result<(), FsError>| #[trigger]
                replied_fsyncdir(p, path, a) && r == done_answer(a),
            RequestV::StatFs => exists|a: Result<StatVfs64, FsError>| #[trigger]
                replied_statfs(p, a) && r == statfs_answer(a),
        },
    }
}

/// Answer a batched getattr, one path after the other.
fn dispatch_batch<P: PathFs>(provider: &P, paths: &Vec<Vec<u8>>) -> (r: Result<
    VfsResponse,
    FsError,
>)
    ensures
        batch_answered(*provider, views(paths@), answer_view(r)),
{
    assert(views(paths@).len() == paths@.len());
    if paths.len() > MAX_BATCH_PATHS {
        return Err(einval());
    }
    let mut results: Vec<VAttrResult> = Vec::new();
    let ghost mut replies: Seq<Result<VAttr, FsError>> = Seq::empty();
    let mut i: usize = 0;
    while i < paths.len()
        invariant
            i <= paths.len(),
            results.len() == i,
            replies.len() == i,
            forall|j: int|
                0 <= j < i ==> replied_getattr(
                    *provider,
                    views(paths@)[j],
                    #[trigger] replies[j],
                ),
            forall|j: int| 0 <= j < i ==> #[trigger] results@[j] == batch_answer(replies[j]),
        decreases paths.len() - i,
    {
        let a = provider.getattr(paths[i].as_slice());
        proof {
            assert(replied_getattr(*provider, views(paths@)[i as int], a));
            replies = replies.push(a);
        }
        results.push(answer_in_batch(a));
        i += 1;
    }
    assert(results@ =~= Seq::new(replies.len(), |i: int| batch_answer(replies[i])));
    Ok(VfsResponse::AttrMany(results))
}

/// Answer a removal.
fn dispatch_remove<P: PathFs>(provider: &P, path: &[u8]) -> (r: Result<VfsResponse, FsError>)
    ensures
        removal_answered(*provider, path@, answer_view(r)),
{
    let a = provider.getattr(path);
    assert(replied_getattr(*provider, path@, a));
    let is_dir = match a {
        Ok(attr) => attr.kind == NodeKind::Dir,
        Err(e) => {
            if !e.is_errno(LINUX_ENOENT) {
                return Err(e);
            }
            false
        },
    };
    if is_dir {
        let b = provider.rmdir(path);
        assert(replied_rmdir(*provider, path@, b));
        answer_done(b)
    } else {
        let b = provider.remove(path);
        assert(replied_remove(*provider, path@, b));
        answer_done(b)
    }
}

/// Answer a [`VfsRequest`], leaving errors as they are.
pub fn dispatch_inner<P: PathFs>(provider: &P, req: VfsRequest) -> (r: Result<
    VfsResponse,
    FsError,
>)
    ensures
        answered(*provider, req@, answer_view(r)),
{
    let ghost q = req@;
    match validate_request_paths(&req) {
        Err(e) => {
            return Err(e);
        },
        Ok(_) => {},
    }
    match req {
        VfsRequest::GetAttr { path } => {
            let a = provider.getattr(path.as_slice());
            assert(replied_getattr(*provider, q->GetAttr_path, a));
            answer_attr(a)
        },
        VfsRequest::GetAttrMany { paths } => dispatch_batch(provider, &paths),
        VfsRequest::ReadDir { path } => {
            let a = provider.readdir(path.as_slice());
            assert(replied_readdir(*provider, q->ReadDir_path, a));
            answer_dir(a)
        },
        VfsRequest::ReadLink { path } => {
            let a = provider.readlink(path.as_slice());
            assert(replied_readlink(*provider, q->ReadLink_path, a));
            answer_link(a)
        },
        VfsRequest::Read { path, offset, size } => match clamp_io_size(size) {
            Err(e) => Err(e),
            Ok(size) => {
                let a = provider.read(path.as_slice(), offset, size);
                assert(replied_read(
                    *provider,
                    q->Read_path,
                    q->Read_offset,
                    clamped_size(q->Read_size),
                    a,
                ));
                answer_data(a, size)
            },
        },
        VfsRequest::Write { path, offset, data } => match clamp_write_len(data.len()) {
            Err(e) => Err(e),
            Ok(_) => {
                let a = provider.write(path.as_slice(), offset, data.as_slice());
                assert(replied_write(*provider, q->Write_path, q->Write_offset, q->Write_data, a));
                answer_count(a, data.len())
            },
        },
        VfsRequest::Create { path, attr } => match attr.into_vattr() {
            Err(e) => Err(e),
            Ok(attr) => {
                let a = provider.create(path.as_slice(), &attr);
                assert(replied_create(
                    *provider,
                    q->Create_path,
                    attr_of_wire(q->Create_attr)->Ok_0,
                    a,
                ));
                answer_attr(a)
            },
        },
        VfsRequest::Mkdir { path, mode } => {
            let a = provider.mkdir(path.as_slice(), mode);
            assert(replied_mkdir(*provider, q->Mkdir_path, q->Mkdir_mode, a));
            answer_attr(a)
        },
        VfsRequest::Remove { path } => dispatch_remove(provider, path.as_slice()),
        VfsRequest::Rename { from, to, flags } => match check_rename_flags(flags) {
            Err(e) => Err(e),
            Ok(_) => {
                let a = provider.rename_with_flags(from.as_slice(), to.as_slice(), flags);
                assert(replied_rename_with_flags(
                    *provider,
                    q->Rename_from,
                    q->Rename_to,
                    q->Rename_flags,
                    a,
                ));
                answer_done(a)
            },
        },
        VfsRequest::SetAttr { path, attr, valid } => match attr.into_vattr() {
            Err(e) => Err(e),
            Ok(attr) => {
                let known = valid & SETATTR_ALL;
                let a = provider.setattr(path.as_slice(), &attr, known);
                assert(replied_setattr(
                    *provider,
                    q->SetAttr_path,
                    attr_of_wire(q->SetAttr_attr)->Ok_0,
                    q->SetAttr_valid & SETATTR_ALL,
                    a,
                ));
                answer_attr(a)
            },
        },
        VfsRequest::Symlink { path, target } => {
            let a = provider.symlink(path.as_slice(), target.as_slice());
            assert(replied_symlink(*provider, q->Symlink_path, q->Symlink_target, a));
            answer_attr(a)
        },
        VfsRequest::SetXattr { path, name, value, flags } => {
            let a = provider.setxattr(path.as_slice(), name.as_slice(), value.as_slice(), flags);
            assert(replied_setxattr(
                *provider,
                q->SetXattr_path,
                q->SetXattr_name,
                q->SetXattr_value,
                q->SetXattr_flags,
                a,
            ));
            answer_done(a)
        },
        VfsRequest::GetXattr { path, name } => {
            let a = provider.getxattr(path.as_slice(), name.as_slice());
            assert(replied_getxattr(*provider, q->GetXattr_path, q->GetXattr_name, a));
            answer_bytes(a)
        },
        VfsRequest::ListXattr { path } => {
            let a = provider.listxattr(path.as_slice());
            assert(replied_listxattr(*provider, q->ListXattr_path, a));
            answer_names(a)
        },
        VfsRequest::RemoveXattr { path, name } => {
            let a = provider.removexattr(path.as_slice(), name.as_slice());
            assert(replied_removexattr(*provider, q->RemoveXattr_path, q->RemoveXattr_name, a));
            answer_done(a)
        },
        VfsRequest::Flush { path } => {
            let a = provider.flush(path.as_slice());
            assert(replied_flush(*provider, q->Flush_path, a));
            answer_done(a)
        },
        VfsRequest::Fsync { path, datasync } => {
            let a = provider.fsync(path.as_slice(), datasync);
            assert(replied_fsync(*provider, q->Fsync_path, q->Fsync_datasync, a));
            answer_done(a)
        },
        VfsRequest::FsyncDir { path } => {
            let a = provider.fsyncdir(path.as_slice());
            assert(replied_fsyncdir(*provider, q->FsyncDir_path, a));
            answer_done(a)
        },
        VfsRequest::StatFs => {
            let a = provider.statfs();
            assert(replied_statfs(*provider, a));
            answer_statfs(a)
        },
    }
}

/// Answer a [`VfsRequest`] from a concrete provider, turning any error into
/// [`VfsResponse::Errno`] with its Linux errno. A provider reports errors in
/// Linux errno, the value the wire and the guest both speak, so that this is a
/// verbatim passthrough.
pub fn dispatch<P: PathFs>(provider: &P, req: VfsRequest) -> (resp: VfsResponse)
    ensures
        exists|r: Result<ResponseV, FsError>| #[trigger]
            answered(*provider, req@, r) && resp@ == on_wire(r),
{
    let r = dispatch_inner(provider, req);
    assert(answered(*provider, req@, answer_view(r)));
    match r {
        Ok(resp) => resp,
        Err(e) => VfsResponse::Errno(provider_errno_to_wire(e)),
    }
}

} // verus!
