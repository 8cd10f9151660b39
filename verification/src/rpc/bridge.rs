//! What the bridge promises as a whole: a provider behind the wire behaves like
//! the same provider called directly.
//!
//! The first laws follow one reply from the server's provider to the client: it
//! is turned into an answer, the answer is sent, and the client decodes it. What
//! comes out is the reply itself; an error that carries no errno comes out as
//! `EIO`. The others put both ends together, call by call: what an
//! [`RpcPathFs`] returns over a transport that brings requests and responses
//! through is what the provider on the other side returned.

use super::client::{
    attr_reply, attrs_reply, attrs_view, batch, batch_count, batch_reply, bytes_reply, called,
    collected, count_reply, data_reply, dir_reply, done_reply, listing_of_wire, names_reply,
    sent_in_batches, statfs_reply, RpcPathFs, VfsTransport,
};
use super::dispatch::{
    answer_view, answered, attr_answer, batch_answer, bytes_answer, count_answer, data_answer,
    dir_answer, done_answer, entries_view, link_answer, names_answer, on_wire,
    path_and_xattr_check, paths_check, statfs_answer,
};
use super::limits::clamped_size;
use super::messages::{
    attr_wire, attrs_round_trip_over_the_wire, entries_round_trip_over_the_wire, entry_wire,
    limits_check, statfs_wire, statistics_round_trip_over_the_wire, times_valid, total_len,
    RequestV, ResponseV, VfsResponse,
};
use super::protocol::{
    MAX_BATCH_PATHS, MAX_BATCH_PATH_BYTES, MAX_IO_SIZE, MAX_READDIR_ENTRIES, MAX_XATTR_VALUE,
};
use super::serve::{refusal, refused_requests_get_their_errno, served};
use crate::abi::{StatVfs64, SETATTR_ALL};
use crate::error::FsError;
use crate::name_validation::{path_check, symlink_target_check};
use crate::path_fs::{NodeKind, PathFs, VAttr, VDirEntry, VDirEntryV};
use crate::platform::{wire_errno, LINUX_ENOENT};
use crate::replies::{
    replied_create, replied_flush, replied_fsync, replied_fsyncdir, replied_getattr,
    replied_getattr_many, replied_getxattr, replied_listxattr, replied_mkdir, replied_read,
    replied_readdir, replied_readlink, replied_remove, replied_removexattr,
    replied_rename_with_flags, replied_rmdir, replied_setattr, replied_setxattr, replied_statfs,
    replied_symlink, replied_write, slice_views,
};
use crate::vfs::bytes_of;
use crate::vfs::remove_ops::rename_flags_check;
use crate::vfs::xattr_ops::{names_check, names_of};
use vstd::prelude::*;

verus! {

/// A reply as it arrives on the other side of the wire.
pub open spec fn bridged<X>(r: Result<X, FsError>) -> Result<X, FsError> {
    match r {
        Ok(x) => Ok(x),
        Err(e) => Err(FsError::Os(wire_errno(e))),
    }
}

/// Whether a reply holds attributes whose timestamps are well-formed instants,
/// if it holds any.
pub open spec fn reply_valid(r: Result<VAttr, FsError>) -> bool {
    r matches Ok(attr) ==> times_valid(attr)
}

/// Whether a reply holds a listing that is not too long for the wire, if it
/// holds any.
pub open spec fn listing_fits(r: Result<Seq<VDirEntryV>, FsError>) -> bool {
    r matches Ok(entries) ==> entries.len() <= MAX_READDIR_ENTRIES
}

/// Whether a reply holds no more than `size` bytes.
pub open spec fn data_fits(r: Result<Seq<u8>, FsError>, size: u32) -> bool {
    r matches Ok(data) ==> data.len() <= size
}

/// Whether a reply counts no more than `len` bytes.
pub open spec fn count_fits(r: Result<usize, FsError>, len: nat) -> bool {
    r matches Ok(count) ==> count <= len
}

/// Whether a reply holds a valid target of a link, if it holds any.
pub open spec fn link_valid(r: Result<Seq<u8>, FsError>) -> bool {
    r matches Ok(target) ==> symlink_target_check(target) is Ok
}

/// Whether a reply holds valid attribute names, if it holds any.
pub open spec fn names_valid(r: Result<Seq<Seq<u8>>, FsError>) -> bool {
    r matches Ok(names) ==> names_check(names) is Ok
}

/// A reply that crossed the wire once crosses it again unchanged.
pub proof fn bridging_is_idempotent<X>(r: Result<X, FsError>)
    ensures
        bridged(bridged(r)) == bridged(r),
{
}

/// Attributes cross the wire.
pub proof fn attributes_cross(a: Result<VAttr, FsError>)
    requires
        reply_valid(a),
    ensures
        attr_reply(Ok(on_wire(attr_answer(a)))) == bridged(a),
{
    if let Ok(attr) = a {
        attrs_round_trip_over_the_wire(attr);
    }
}

/// Success crosses the wire.
pub proof fn success_crosses(a: Result<(), FsError>)
    ensures
        done_reply(Ok(on_wire(done_answer(a)))) == bridged(a),
{
}

/// Bytes cross the wire.
pub proof fn bytes_cross(a: Result<Seq<u8>, FsError>)
    ensures
        bytes_reply(Ok(on_wire(bytes_answer(a)))) == bridged(a),
{
}

/// Data that a provider returns within the requested size crosses the wire.
pub proof fn data_crosses(a: Result<Seq<u8>, FsError>, size: u32)
    requires
        data_fits(a, size),
    ensures
        data_reply(Ok(on_wire(data_answer(a, size))), size) == bridged(a),
{
}

/// A count within the length of the data crosses the wire.
pub proof fn counts_cross(a: Result<usize, FsError>, len: nat)
    requires
        count_fits(a, len),
    ensures
        count_reply(Ok(on_wire(count_answer(a, len))), len) == bridged(a),
{
}

/// The target of a link crosses the wire, if it is a valid one.
pub proof fn links_cross(a: Result<Seq<u8>, FsError>)
    requires
        link_valid(a),
    ensures
        bytes_reply(Ok(on_wire(link_answer(a)))) == bridged(a),
{
}

/// Attribute names cross the wire, if they are valid ones.
pub proof fn names_cross(a: Result<Seq<Seq<u8>>, FsError>)
    requires
        names_valid(a),
    ensures
        names_reply(Ok(on_wire(names_answer(a)))) == bridged(a),
{
}

/// Volume statistics cross the wire.
pub proof fn statistics_cross(a: Result<StatVfs64, FsError>)
    ensures
        statfs_reply(Ok(on_wire(statfs_answer(a)))) == bridged(a),
{
    if let Ok(stat) = a {
        statistics_round_trip_over_the_wire(stat, statfs_wire(stat));
    }
}

/// A listing on the wire stands for the listing it was made of.
proof fn lemma_listing_crosses(entries: Seq<VDirEntryV>)
    ensures
        listing_of_wire(Seq::new(entries.len(), |i: int| entry_wire(entries[i]))) == Ok::<
            Seq<VDirEntryV>,
            FsError,
        >(entries),
    decreases entries.len(),
{
    let wire = Seq::new(entries.len(), |i: int| entry_wire(entries[i]));
    if entries.len() > 0 {
        let front = entries.drop_last();
        lemma_listing_crosses(front);
        assert(wire.drop_last() =~= Seq::new(front.len(), |i: int| entry_wire(front[i])));
        entries_round_trip_over_the_wire(entries.last());
        assert(front.push(entries.last()) =~= entries);
    } else {
        assert(entries =~= Seq::empty());
    }
}

/// A directory listing crosses the wire, if it is not too long.
pub proof fn listings_cross(a: Result<Seq<VDirEntryV>, FsError>)
    requires
        listing_fits(a),
    ensures
        dir_reply(Ok(on_wire(dir_answer(a)))) == bridged(a),
{
    if let Ok(entries) = a {
        lemma_listing_crosses(entries);
    }
}

/// A batch of attributes crosses the wire, each failure in its place.
pub proof fn batches_cross(replies: Seq<Result<VAttr, FsError>>)
    requires
        forall|i: int| 0 <= i < replies.len() ==> reply_valid(#[trigger] replies[i]),
    ensures
        attrs_reply(
            Ok(
                ResponseV::AttrMany(Seq::new(replies.len(), |i: int| batch_answer(replies[i]))),
            ),
            replies.len(),
        ) == Ok::<Seq<Result<VAttr, FsError>>, FsError>(
            Seq::new(replies.len(), |i: int| bridged(replies[i])),
        ),
{
    let wire = Seq::new(replies.len(), |i: int| batch_answer(replies[i]));
    let back = Seq::new(wire.len(), |i: int| batch_reply(wire[i]));
    assert forall|i: int| 0 <= i < replies.len() implies #[trigger] back[i] == bridged(
        replies[i],
    ) by {
        if let Ok(attr) = replies[i] {
            attrs_round_trip_over_the_wire(attr);
        }
    }
    assert(back =~= Seq::new(replies.len(), |i: int| bridged(replies[i])));
}

/// Whether a transport brings every request to the side that serves `p`, and the
/// response back.
pub open spec fn faithful<T: VfsTransport, P: PathFs>(t: T, p: P) -> bool {
    forall|req: RequestV, a: Result<VfsResponse, FsError>| #[trigger]
        called(t, req, a) ==> exists|resp: ResponseV| #[trigger]
            served(p, req, resp) && answer_view(a) == Ok::<ResponseV, FsError>(resp)
}

/// Over a faithful transport, a request within the limits is answered by the
/// provider.
proof fn lemma_answered<T: VfsTransport, P: PathFs>(
    t: T,
    p: P,
    req: RequestV,
    a: Result<VfsResponse, FsError>,
) -> (r: Result<ResponseV, FsError>)
    requires
        faithful(t, p),
        limits_check(req) is Ok,
        called(t, req, a),
    ensures
        answered(p, req, r),
        answer_view(a) == Ok::<ResponseV, FsError>(on_wire(r)),
{
    let resp = choose|resp: ResponseV| #[trigger]
        served(p, req, resp) && answer_view(a) == Ok::<ResponseV, FsError>(resp);
    choose|r: Result<ResponseV, FsError>| #[trigger] answered(p, req, r) && resp == on_wire(r)
}

/// Asking a remote provider for attributes is asking the provider.
pub proof fn remote_getattr_is_getattr<T: VfsTransport, P: PathFs>(
    f: RpcPathFs<T>,
    p: P,
    path: Seq<u8>,
    got: Result<VAttr, FsError>,
)
    requires
        faithful(f.link(), p),
        path_check(path) is Ok,
        replied_getattr(f, path, got),
    ensures
        exists|a: Result<VAttr, FsError>| #[trigger]
            replied_getattr(p, path, a) && (reply_valid(a) ==> got == bridged(a)),
{
    let sent = choose|sent: Result<VfsResponse, FsError>| #[trigger]
        called(f.link(), RequestV::GetAttr { path }, sent) && got == attr_reply(answer_view(sent));
    let r = lemma_answered(f.link(), p, RequestV::GetAttr { path }, sent);
    let a = choose|a: Result<VAttr, FsError>| #[trigger]
        replied_getattr(p, path, a) && r == attr_answer(a);
    assert(replied_getattr(p, path, a));
    if reply_valid(a) {
        attributes_cross(a);
    }
}

/// Asking a remote provider for a listing is asking the provider.
pub proof fn remote_readdir_is_readdir<T: VfsTransport, P: PathFs>(
    f: RpcPathFs<T>,
    p: P,
    path: Seq<u8>,
    got: Result<Vec<VDirEntry>, FsError>,
)
    requires
        faithful(f.link(), p),
        path_check(path) is Ok,
        replied_readdir(f, path, got),
    ensures
        exists|a: Result<Vec<VDirEntry>, FsError>| #[trigger]
            replied_readdir(p, path, a)
                && (listing_fits(entries_view(a)) ==> entries_view(got)
                    == bridged(entries_view(a))),
{
    let sent = choose|sent: Result<VfsResponse, FsError>| #[trigger]
        called(f.link(), RequestV::ReadDir { path }, sent)
            && entries_view(got) == dir_reply(answer_view(sent));
    let r = lemma_answered(f.link(), p, RequestV::ReadDir { path }, sent);
    let a = choose|a: Result<Vec<VDirEntry>, FsError>| #[trigger]
        replied_readdir(p, path, a) && r == dir_answer(entries_view(a));
    assert(replied_readdir(p, path, a));
    if listing_fits(entries_view(a)) {
        listings_cross(entries_view(a));
    }
}

/// Reading from a remote provider is reading from the provider, as much as the
/// wire carries.
pub proof fn remote_read_is_read<T: VfsTransport, P: PathFs>(
    f: RpcPathFs<T>,
    p: P,
    path: Seq<u8>,
    offset: u64,
    size: u32,
    got: Result<Vec<u8>, FsError>,
)
    requires
        faithful(f.link(), p),
        path_check(path) is Ok,
        replied_read(f, path, offset, size, got),
    ensures
        exists|a: Result<Vec<u8>, FsError>| #[trigger]
            replied_read(p, path, offset, clamped_size(size), a) && (data_fits(
                bytes_of(a),
                clamped_size(size),
            ) ==> bytes_of(got) == bridged(bytes_of(a))),
{
    let size = clamped_size(size);
    let sent = choose|sent: Result<VfsResponse, FsError>| #[trigger]
        called(f.link(), RequestV::Read { path, offset, size }, sent)
            && bytes_of(got) == data_reply(answer_view(sent), size);
    let r = lemma_answered(f.link(), p, RequestV::Read { path, offset, size }, sent);
    let a = choose|a: Result<Vec<u8>, FsError>| #[trigger]
        replied_read(p, path, offset, size, a) && r == data_answer(bytes_of(a), size);
    assert(replied_read(p, path, offset, size, a));
    if data_fits(bytes_of(a), size) {
        data_crosses(bytes_of(a), size);
    }
}

/// Writing to a remote provider is writing to the provider.
pub proof fn remote_write_is_write<T: VfsTransport, P: PathFs>(
    f: RpcPathFs<T>,
    p: P,
    path: Seq<u8>,
    offset: u64,
    data: Seq<u8>,
    got: Result<usize, FsError>,
)
    requires
        faithful(f.link(), p),
        path_check(path) is Ok,
        data.len() <= MAX_IO_SIZE,
        replied_write(f, path, offset, data, got),
    ensures
        exists|a: Result<usize, FsError>| #[trigger]
            replied_write(p, path, offset, data, a)
                && (count_fits(a, data.len()) ==> got == bridged(a)),
{
    let sent = choose|sent: Result<VfsResponse, FsError>| #[trigger]
        called(f.link(), RequestV::Write { path, offset, data }, sent)
            && got == count_reply(answer_view(sent), data.len());
    let r = lemma_answered(f.link(), p, RequestV::Write { path, offset, data }, sent);
    let a = choose|a: Result<usize, FsError>| #[trigger]
        replied_write(p, path, offset, data, a) && r == count_answer(a, data.len());
    assert(replied_write(p, path, offset, data, a));
    if count_fits(a, data.len()) {
        counts_cross(a, data.len());
    }
}

/// Creating a node at a remote provider is creating it at the provider, with the
/// attributes asked for.
pub proof fn remote_create_is_create<T: VfsTransport, P: PathFs>(
    f: RpcPathFs<T>,
    p: P,
    path: Seq<u8>,
    attr: VAttr,
    got: Result<VAttr, FsError>,
)
    requires
        faithful(f.link(), p),
        path_check(path) is Ok,
        times_valid(attr),
        replied_create(f, path, attr, got),
    ensures
        exists|a: Result<VAttr, FsError>| #[trigger]
            replied_create(p, path, attr, a) && (reply_valid(a) ==> got == bridged(a)),
{
    attrs_round_trip_over_the_wire(attr);
    let sent = choose|sent: Result<VfsResponse, FsError>| #[trigger]
        called(f.link(), RequestV::Create { path, attr: attr_wire(attr) }, sent)
            && got == attr_reply(answer_view(sent));
    let r = lemma_answered(f.link(), p, RequestV::Create { path, attr: attr_wire(attr) }, sent);
    let a = choose|a: Result<VAttr, FsError>| #[trigger]
        replied_create(p, path, attr, a) && r == attr_answer(a);
    assert(replied_create(p, path, attr, a));
    if reply_valid(a) {
        attributes_cross(a);
    }
}

/// Making a directory at a remote provider is making it at the provider.
pub proof fn remote_mkdir_is_mkdir<T: VfsTransport, P: PathFs>(
    f: RpcPathFs<T>,
    p: P,
    path: Seq<u8>,
    mode: u32,
    got: Result<VAttr, FsError>,
)
    requires
        faithful(f.link(), p),
        path_check(path) is Ok,
        replied_mkdir(f, path, mode, got),
    ensures
        exists|a: Result<VAttr, FsError>| #[trigger]
            replied_mkdir(p, path, mode, a) && (reply_valid(a) ==> got == bridged(a)),
{
    let sent = choose|sent: Result<VfsResponse, FsError>| #[trigger]
        called(f.link(), RequestV::Mkdir { path, mode }, sent)
            && got == attr_reply(answer_view(sent));
    let r = lemma_answered(f.link(), p, RequestV::Mkdir { path, mode }, sent);
    let a = choose|a: Result<VAttr, FsError>| #[trigger]
        replied_mkdir(p, path, mode, a) && r == attr_answer(a);
    assert(replied_mkdir(p, path, mode, a));
    if reply_valid(a) {
        attributes_cross(a);
    }
}

/// Setting attributes at a remote provider is setting them at the provider.
/// Selectors that the protocol does not know are dropped on the way.
pub proof fn remote_setattr_is_setattr<T: VfsTransport, P: PathFs>(
    f: RpcPathFs<T>,
    p: P,
    path: Seq<u8>,
    attr: VAttr,
    valid: u32,
    got: Result<VAttr, FsError>,
)
    requires
        faithful(f.link(), p),
        path_check(path) is Ok,
        times_valid(attr),
        replied_setattr(f, path, attr, valid, got),
    ensures
        exists|a: Result<VAttr, FsError>| #[trigger]
            replied_setattr(p, path, attr, valid & SETATTR_ALL, a)
                && (reply_valid(a) ==> got == bridged(a)),
{
    attrs_round_trip_over_the_wire(attr);
    let sent = choose|sent: Result<VfsResponse, FsError>| #[trigger]
        called(f.link(), RequestV::SetAttr { path, attr: attr_wire(attr), valid }, sent)
            && got == attr_reply(answer_view(sent));
    let r = lemma_answered(
        f.link(),
        p,
        RequestV::SetAttr { path, attr: attr_wire(attr), valid },
        sent,
    );
    let a = choose|a: Result<VAttr, FsError>| #[trigger]
        replied_setattr(p, path, attr, valid & SETATTR_ALL, a) && r == attr_answer(a);
    assert(replied_setattr(p, path, attr, valid & SETATTR_ALL, a));
    if reply_valid(a) {
        attributes_cross(a);
    }
}

/// Making a link at a remote provider is making it at the provider.
pub proof fn remote_symlink_is_symlink<T: VfsTransport, P: PathFs>(
    f: RpcPathFs<T>,
    p: P,
    path: Seq<u8>,
    target: Seq<u8>,
    got: Result<VAttr, FsError>,
)
    requires
        faithful(f.link(), p),
        path_check(path) is Ok,
        symlink_target_check(target) is Ok,
        replied_symlink(f, path, target, got),
    ensures
        exists|a: Result<VAttr, FsError>| #[trigger]
            replied_symlink(p, path, target, a) && (reply_valid(a) ==> got == bridged(a)),
{
    let sent = choose|sent: Result<VfsResponse, FsError>| #[trigger]
        called(f.link(), RequestV::Symlink { path, target }, sent)
            && got == attr_reply(answer_view(sent));
    let r = lemma_answered(f.link(), p, RequestV::Symlink { path, target }, sent);
    let a = choose|a: Result<VAttr, FsError>| #[trigger]
        replied_symlink(p, path, target, a) && r == attr_answer(a);
    assert(replied_symlink(p, path, target, a));
    if reply_valid(a) {
        attributes_cross(a);
    }
}

/// Reading a link at a remote provider is reading it at the provider.
pub proof fn remote_readlink_is_readlink<T: VfsTransport, P: PathFs>(
    f: RpcPathFs<T>,
    p: P,
    path: Seq<u8>,
    got: Result<Vec<u8>, FsError>,
)
    requires
        faithful(f.link(), p),
        path_check(path) is Ok,
        replied_readlink(f, path, got),
    ensures
        exists|a: Result<Vec<u8>, FsError>| #[trigger]
            replied_readlink(p, path, a)
                && (link_valid(bytes_of(a)) ==> bytes_of(got) == bridged(bytes_of(a))),
{
    let sent = choose|sent: Result<VfsResponse, FsError>| #[trigger]
        called(f.link(), RequestV::ReadLink { path }, sent)
            && bytes_of(got) == bytes_reply(answer_view(sent));
    let r = lemma_answered(f.link(), p, RequestV::ReadLink { path }, sent);
    let a = choose|a: Result<Vec<u8>, FsError>| #[trigger]
        replied_readlink(p, path, a) && r == link_answer(bytes_of(a));
    assert(replied_readlink(p, path, a));
    if link_valid(bytes_of(a)) {
        links_cross(bytes_of(a));
    }
}

/// Renaming at a remote provider is renaming at the provider.
pub proof fn remote_rename_with_flags_is_rename_with_flags<T: VfsTransport, P: PathFs>(
    f: RpcPathFs<T>,
    p: P,
    from: Seq<u8>,
    to: Seq<u8>,
    flags: u32,
    got: Result<(), FsError>,
)
    requires
        faithful(f.link(), p),
        path_check(from) is Ok,
        path_check(to) is Ok,
        rename_flags_check(flags) is Ok,
        replied_rename_with_flags(f, from, to, flags, got),
    ensures
        exists|a: Result<(), FsError>| #[trigger]
            replied_rename_with_flags(p, from, to, flags, a) && got == bridged(a),
{
    let sent = choose|sent: Result<VfsResponse, FsError>| #[trigger]
        called(f.link(), RequestV::Rename { from, to, flags }, sent)
            && got == done_reply(answer_view(sent));
    let r = lemma_answered(f.link(), p, RequestV::Rename { from, to, flags }, sent);
    let a = choose|a: Result<(), FsError>| #[trigger]
        replied_rename_with_flags(p, from, to, flags, a) && r == done_answer(a);
    assert(replied_rename_with_flags(p, from, to, flags, a));
    success_crosses(a);
}

/// Setting an extended attribute at a remote provider is setting it at the
/// provider.
pub proof fn remote_setxattr_is_setxattr<T: VfsTransport, P: PathFs>(
    f: RpcPathFs<T>,
    p: P,
    path: Seq<u8>,
    name: Seq<u8>,
    value: Seq<u8>,
    flags: u32,
    got: Result<(), FsError>,
)
    requires
        faithful(f.link(), p),
        path_and_xattr_check(path, name) is Ok,
        value.len() <= MAX_XATTR_VALUE,
        replied_setxattr(f, path, name, value, flags, got),
    ensures
        exists|a: Result<(), FsError>| #[trigger]
            replied_setxattr(p, path, name, value, flags, a) && got == bridged(a),
{
    let sent = choose|sent: Result<VfsResponse, FsError>| #[trigger]
        called(f.link(), RequestV::SetXattr { path, name, value, flags }, sent)
            && got == done_reply(answer_view(sent));
    let r = lemma_answered(f.link(), p, RequestV::SetXattr { path, name, value, flags }, sent);
    let a = choose|a: Result<(), FsError>| #[trigger]
        replied_setxattr(p, path, name, value, flags, a) && r == done_answer(a);
    assert(replied_setxattr(p, path, name, value, flags, a));
    success_crosses(a);
}

/// Getting an extended attribute from a remote provider is getting it from the
/// provider.
pub proof fn remote_getxattr_is_getxattr<T: VfsTransport, P: PathFs>(
    f: RpcPathFs<T>,
    p: P,
    path: Seq<u8>,
    name: Seq<u8>,
    got: Result<Vec<u8>, FsError>,
)
    requires
        faithful(f.link(), p),
        path_and_xattr_check(path, name) is Ok,
        replied_getxattr(f, path, name, got),
    ensures
        exists|a: Result<Vec<u8>, FsError>| #[trigger]
            replied_getxattr(p, path, name, a) && bytes_of(got) == bridged(bytes_of(a)),
{
    let sent = choose|sent: Result<VfsResponse, FsError>| #[trigger]
        called(f.link(), RequestV::GetXattr { path, name }, sent)
            && bytes_of(got) == bytes_reply(answer_view(sent));
    let r = lemma_answered(f.link(), p, RequestV::GetXattr { path, name }, sent);
    let a = choose|a: Result<Vec<u8>, FsError>| #[trigger]
        replied_getxattr(p, path, name, a) && r == bytes_answer(bytes_of(a));
    assert(replied_getxattr(p, path, name, a));
    bytes_cross(bytes_of(a));
}

/// Listing the extended attributes at a remote provider is listing them at the
/// provider.
pub proof fn remote_listxattr_is_listxattr<T: VfsTransport, P: PathFs>(
    f: RpcPathFs<T>,
    p: P,
    path: Seq<u8>,
    got: Result<Vec<Vec<u8>>, FsError>,
)
    requires
        faithful(f.link(), p),
        path_check(path) is Ok,
        replied_listxattr(f, path, got),
    ensures
        exists|a: Result<Vec<Vec<u8>>, FsError>| #[trigger]
            replied_listxattr(p, path, a)
                && (names_valid(names_of(a)) ==> names_of(got) == bridged(names_of(a))),
{
    let sent = choose|sent: Result<VfsResponse, FsError>| #[trigger]
        called(f.link(), RequestV::ListXattr { path }, sent)
            && names_of(got) == names_reply(answer_view(sent));
    let r = lemma_answered(f.link(), p, RequestV::ListXattr { path }, sent);
    let a = choose|a: Result<Vec<Vec<u8>>, FsError>| #[trigger]
        replied_listxattr(p, path, a) && r == names_answer(names_of(a));
    assert(replied_listxattr(p, path, a));
    if names_valid(names_of(a)) {
        names_cross(names_of(a));
    }
}

/// Removing an extended attribute at a remote provider is removing it at the
/// provider.
pub proof fn remote_removexattr_is_removexattr<T: VfsTransport, P: PathFs>(
    f: RpcPathFs<T>,
    p: P,
    path: Seq<u8>,
    name: Seq<u8>,
    got: Result<(), FsError>,
)
    requires
        faithful(f.link(), p),
        path_and_xattr_check(path, name) is Ok,
        replied_removexattr(f, path, name, got),
    ensures
        exists|a: Result<(), FsError>| #[trigger]
            replied_removexattr(p, path, name, a) && got == bridged(a),
{
    let sent = choose|sent: Result<VfsResponse, FsError>| #[trigger]
        called(f.link(), RequestV::RemoveXattr { path, name }, sent)
            && got == done_reply(answer_view(sent));
    let r = lemma_answered(f.link(), p, RequestV::RemoveXattr { path, name }, sent);
    let a = choose|a: Result<(), FsError>| #[trigger]
        replied_removexattr(p, path, name, a) && r == done_answer(a);
    assert(replied_removexattr(p, path, name, a));
    success_crosses(a);
}

/// Flushing at a remote provider is flushing at the provider.
pub proof fn remote_flush_is_flush<T: VfsTransport, P: PathFs>(
    f: RpcPathFs<T>,
    p: P,
    path: Seq<u8>,
    got: Result<(), FsError>,
)
    requires
        faithful(f.link(), p),
        path_check(path) is Ok,
        replied_flush(f, path, got),
    ensures
        exists|a: Result<(), FsError>| #[trigger]
            replied_flush(p, path, a) && got == bridged(a),
{
    let sent = choose|sent: Result<VfsResponse, FsError>| #[trigger]
        called(f.link(), RequestV::Flush { path }, sent) && got == done_reply(answer_view(sent));
    let r = lemma_answered(f.link(), p, RequestV::Flush { path }, sent);
    let a = choose|a: Result<(), FsError>| #[trigger]
        replied_flush(p, path, a) && r == done_answer(a);
    assert(replied_flush(p, path, a));
    success_crosses(a);
}

/// Syncing at a remote provider is syncing at the provider.
pub proof fn remote_fsync_is_fsync<T: VfsTransport, P: PathFs>(
    f: RpcPathFs<T>,
    p: P,
    path: Seq<u8>,
    datasync: bool,
    got: Result<(), FsError>,
)
    requires
        faithful(f.link(), p),
        path_check(path) is Ok,
        replied_fsync(f, path, datasync, got),
    ensures
        exists|a: Result<(), FsError>| #[trigger]
            replied_fsync(p, path, datasync, a) && got == bridged(a),
{
    let sent = choose|sent: Result<VfsResponse, FsError>| #[trigger]
        called(f.link(), RequestV::Fsync { path, datasync }, sent)
            && got == done_reply(answer_view(sent));
    let r = lemma_answered(f.link(), p, RequestV::Fsync { path, datasync }, sent);
    let a = choose|a: Result<(), FsError>| #[trigger]
        replied_fsync(p, path, datasync, a) && r == done_answer(a);
    assert(replied_fsync(p, path, datasync, a));
    success_crosses(a);
}

/// Syncing a directory at a remote provider is syncing it at the provider.
pub proof fn remote_fsyncdir_is_fsyncdir<T: VfsTransport, P: PathFs>(
    f: RpcPathFs<T>,
    p: P,
    path: Seq<u8>,
    got: Result<(), FsError>,
)
    requires
        faithful(f.link(), p),
        path_check(path) is Ok,
        replied_fsyncdir(f, path, got),
    ensures
        exists|a: Result<(), FsError>| #[trigger]
            replied_fsyncdir(p, path, a) && got == bridged(a),
{
    let sent = choose|sent: Result<VfsResponse, FsError>| #[trigger]
        called(f.link(), RequestV::FsyncDir { path }, sent) && got == done_reply(answer_view(sent));
    let r = lemma_answered(f.link(), p, RequestV::FsyncDir { path }, sent);
    let a = choose|a: Result<(), FsError>| #[trigger]
        replied_fsyncdir(p, path, a) && r == done_answer(a);
    assert(replied_fsyncdir(p, path, a));
    success_crosses(a);
}

/// Asking a remote provider for volume statistics is asking the provider.
pub proof fn remote_statfs_is_statfs<T: VfsTransport, P: PathFs>(
    f: RpcPathFs<T>,
    p: P,
    got: Result<StatVfs64, FsError>,
)
    requires
        faithful(f.link(), p),
        replied_statfs(f, got),
    ensures
        exists|a: Result<StatVfs64, FsError>| #[trigger]
            replied_statfs(p, a) && got == bridged(a),
{
    let sent = choose|sent: Result<VfsResponse, FsError>| #[trigger]
        called(f.link(), RequestV::StatFs, sent) && got == statfs_reply(answer_view(sent));
    let r = lemma_answered(f.link(), p, RequestV::StatFs, sent);
    let a = choose|a: Result<StatVfs64, FsError>| #[trigger]
        replied_statfs(p, a) && r == statfs_answer(a);
    assert(replied_statfs(p, a));
    statistics_cross(a);
}

/// Whether `got` is what came back from `p` for the path `path`.
pub open spec fn attr_bridged<P: PathFs>(
    p: P,
    path: Seq<u8>,
    got: Result<VAttr, FsError>,
) -> bool {
    exists|a: Result<VAttr, FsError>| #[trigger]
        replied_getattr(p, path, a) && (reply_valid(a) ==> got == bridged(a))
}

/// Every path of a list whose paths are all valid is valid.
proof fn lemma_paths_valid(paths: Seq<Seq<u8>>)
    requires
        forall|i: int| 0 <= i < paths.len() ==> path_check(#[trigger] paths[i]) is Ok,
    ensures
        paths_check(paths) is Ok,
    decreases paths.len(),
{
    if paths.len() > 0 {
        let front = paths.drop_last();
        assert forall|i: int| 0 <= i < front.len() implies path_check(
            #[trigger] front[i],
        ) is Ok by {
            assert(front[i] == paths[i]);
        }
        lemma_paths_valid(front);
        assert(path_check(paths[paths.len() - 1]) is Ok);
    }
}

/// One batch is answered by one result per path.
proof fn lemma_batch_crosses<T: VfsTransport, P: PathFs>(
    t: T,
    p: P,
    paths: Seq<Seq<u8>>,
    sent: Result<VfsResponse, FsError>,
)
    requires
        faithful(t, p),
        paths.len() <= MAX_BATCH_PATHS,
        total_len(paths) <= MAX_BATCH_PATH_BYTES,
        forall|i: int| 0 <= i < paths.len() ==> path_check(#[trigger] paths[i]) is Ok,
        called(t, RequestV::GetAttrMany { paths }, sent),
    ensures
        attrs_reply(answer_view(sent), paths.len()) matches Ok(part) && part.len() == paths.len()
            && forall|i: int|
            0 <= i < paths.len() ==> attr_bridged(p, paths[i], #[trigger] part[i]),
{
    let r = lemma_answered(t, p, RequestV::GetAttrMany { paths }, sent);
    lemma_paths_valid(paths);
    let replies = choose|replies: Seq<Result<VAttr, FsError>>|
        {
            &&& #[trigger] replies.len() == paths.len()
            &&& forall|i: int|
                0 <= i < paths.len() ==> replied_getattr(p, paths[i], #[trigger] replies[i])
            &&& r == Ok::<ResponseV, FsError>(
                ResponseV::AttrMany(Seq::new(replies.len(), |i: int| batch_answer(replies[i]))),
            )
        };
    let part = attrs_reply(answer_view(sent), paths.len())->Ok_0;
    assert forall|i: int| 0 <= i < paths.len() implies attr_bridged(
        p,
        paths[i],
        #[trigger] part[i],
    ) by {
        assert(replied_getattr(p, paths[i], replies[i]));
        assert(part[i] == batch_reply(batch_answer(replies[i])));
        if let Ok(attr) = replies[i] {
            if reply_valid(replies[i]) {
                attrs_round_trip_over_the_wire(attr);
            }
        }
    }
}

/// The batches sent so far are answered by one result per path.
proof fn lemma_batches_cross<T: VfsTransport, P: PathFs>(
    t: T,
    p: P,
    paths: Seq<Seq<u8>>,
    responses: Seq<Result<VfsResponse, FsError>>,
)
    requires
        faithful(t, p),
        forall|i: int| 0 <= i < paths.len() ==> path_check(#[trigger] paths[i]) is Ok,
        forall|k: int|
            0 <= k < batch_count(paths) ==> total_len(#[trigger] batch(paths, k))
                <= MAX_BATCH_PATH_BYTES,
        responses.len() <= batch_count(paths),
        forall|k: int|
            0 <= k < responses.len() ==> called(
                t,
                RequestV::GetAttrMany { paths: batch(paths, k) },
                #[trigger] responses[k],
            ),
    ensures
        collected(paths, responses) matches Ok(all) && all.len() <= paths.len() && all.len() == (
        if responses.len() == batch_count(paths) {
            paths.len() as int
        } else {
            responses.len() * MAX_BATCH_PATHS
        }) && forall|i: int|
            0 <= i < all.len() ==> attr_bridged(p, paths[i], #[trigger] all[i]),
    decreases responses.len(),
{
    if responses.len() > 0 {
        let front = responses.drop_last();
        let k = responses.len() - 1;
        assert forall|j: int| 0 <= j < front.len() implies called(
            t,
            RequestV::GetAttrMany { paths: batch(paths, j) },
            #[trigger] front[j],
        ) by {
            assert(front[j] == responses[j]);
        }
        lemma_batches_cross(t, p, paths, front);
        let part_paths = batch(paths, k);
        assert forall|i: int| 0 <= i < part_paths.len() implies path_check(
            #[trigger] part_paths[i],
        ) is Ok by {
            assert(part_paths[i] == paths[k * MAX_BATCH_PATHS + i]);
        }
        assert(called(t, RequestV::GetAttrMany { paths: part_paths }, responses[k]));
        assert(total_len(batch(paths, k)) <= MAX_BATCH_PATH_BYTES);
        lemma_batch_crosses(t, p, part_paths, responses.last());
        let before = collected(paths, front)->Ok_0;
        let part = attrs_reply(answer_view(responses.last()), part_paths.len())->Ok_0;
        let all = before + part;
        assert forall|i: int| 0 <= i < all.len() implies attr_bridged(
            p,
            paths[i],
            #[trigger] all[i],
        ) by {
            if i >= before.len() {
                assert(all[i] == part[i - before.len()]);
                assert(part_paths[i - before.len()] == paths[i]);
            } else {
                assert(all[i] == before[i]);
            }
        }
    }
}

/// A batched getattr at a remote provider is one getattr per path at the
/// provider, each result in its place, as long as no batch exceeds the size the
/// protocol allows.
pub proof fn remote_getattr_many_is_getattr<T: VfsTransport, P: PathFs>(
    f: RpcPathFs<T>,
    p: P,
    paths: Seq<Seq<u8>>,
    got: Result<Vec<Result<VAttr, FsError>>, FsError>,
)
    requires
        faithful(f.link(), p),
        forall|i: int| 0 <= i < paths.len() ==> path_check(#[trigger] paths[i]) is Ok,
        forall|k: int|
            0 <= k < batch_count(paths) ==> total_len(#[trigger] batch(paths, k))
                <= MAX_BATCH_PATH_BYTES,
        replied_getattr_many(f, paths, got),
    ensures
        attrs_view(got) matches Ok(all) && all.len() == paths.len() && forall|i: int|
            0 <= i < paths.len() ==> attr_bridged(p, paths[i], #[trigger] all[i]),
{
    let arg = choose|arg: &[&[u8]]|
        slice_views(arg@) == paths && #[trigger] call_ensures(
            RpcPathFs::<T>::getattr_many,
            (&f, arg),
            got,
        );
    assert(slice_views(arg@) == paths);
    assert(sent_in_batches(f.link(), paths, attrs_view(got)));
    let responses = choose|responses: Seq<Result<VfsResponse, FsError>>|
        {
            &&& attrs_view(got) == #[trigger] collected(paths, responses)
            &&& responses.len() <= batch_count(paths)
            &&& attrs_view(got) is Ok ==> responses.len() == batch_count(paths)
            &&& responses.len() > 0 ==> collected(paths, responses.drop_last()) is Ok
            &&& forall|k: int|
                0 <= k < responses.len() ==> called(
                    f.link(),
                    RequestV::GetAttrMany { paths: batch(paths, k) },
                    #[trigger] responses[k],
                )
        };
    lemma_batches_cross(f.link(), p, paths, responses);
}

/// What becomes of a removal at a remote provider: a directory goes through the
/// provider's `rmdir` and anything else through its `remove`.
pub open spec fn removed_remotely<P: PathFs>(
    p: P,
    path: Seq<u8>,
    got: Result<(), FsError>,
) -> bool {
    exists|a: Result<VAttr, FsError>| #[trigger]
        replied_getattr(p, path, a) && (match a {
            Ok(attr) => if attr.kind == NodeKind::Dir {
                exists|b: Result<(), FsError>| #[trigger]
                    replied_rmdir(p, path, b) && got == bridged(b)
            } else {
                exists|b: Result<(), FsError>| #[trigger]
                    replied_remove(p, path, b) && got == bridged(b)
            },
            Err(e) => if e == FsError::Os(LINUX_ENOENT) {
                exists|b: Result<(), FsError>| #[trigger]
                    replied_remove(p, path, b) && got == bridged(b)
            } else {
                got == bridged(Err::<(), FsError>(e))
            },
        })
}

/// An answer to a removal, decoded.
proof fn lemma_removal_crosses<P: PathFs>(p: P, path: Seq<u8>, r: Result<ResponseV, FsError>)
    requires
        path_check(path) is Ok,
        answered(p, RequestV::Remove { path }, r),
    ensures
        removed_remotely(p, path, done_reply(Ok(on_wire(r)))),
{
    let got = done_reply(Ok(on_wire(r)));
    let a = choose|a: Result<VAttr, FsError>| #[trigger]
        replied_getattr(p, path, a) && (match a {
            Ok(attr) => if attr.kind == NodeKind::Dir {
                exists|b: Result<(), FsError>| #[trigger]
                    replied_rmdir(p, path, b) && r == done_answer(b)
            } else {
                exists|b: Result<(), FsError>| #[trigger]
                    replied_remove(p, path, b) && r == done_answer(b)
            },
            Err(e) => if e != FsError::Os(LINUX_ENOENT) {
                r == Err::<ResponseV, FsError>(e)
            } else {
                exists|b: Result<(), FsError>| #[trigger]
                    replied_remove(p, path, b) && r == done_answer(b)
            },
        });
    assert(replied_getattr(p, path, a));
}

/// Removing a directory at a remote provider, and removing anything else there,
/// is removing it at the provider.
pub proof fn remote_removal_is_removal<T: VfsTransport, P: PathFs>(
    f: RpcPathFs<T>,
    p: P,
    path: Seq<u8>,
    got: Result<(), FsError>,
)
    requires
        faithful(f.link(), p),
        path_check(path) is Ok,
        replied_rmdir(f, path, got) || replied_remove(f, path, got),
    ensures
        removed_remotely(p, path, got),
{
    if replied_rmdir(f, path, got) {
        let arg = choose|arg: &[u8]|
            arg@ == path && #[trigger] call_ensures(RpcPathFs::<T>::rmdir, (&f, arg), got);
        assert(arg@ == path);
    } else {
        let arg = choose|arg: &[u8]|
            arg@ == path && #[trigger] call_ensures(RpcPathFs::<T>::remove, (&f, arg), got);
        assert(arg@ == path);
    }
    let sent = choose|sent: Result<VfsResponse, FsError>| #[trigger]
        called(f.link(), RequestV::Remove { path }, sent) && got == done_reply(answer_view(sent));
    let r = lemma_answered(f.link(), p, RequestV::Remove { path }, sent);
    lemma_removal_crosses(p, path, r);
}

/// Over a faithful transport, a refused request comes back as the errno of the
/// verdict, whatever the client expected.
pub proof fn refusals_come_back_as_errors<T: VfsTransport, P: PathFs>(
    t: T,
    p: P,
    req: RequestV,
    sent: Result<VfsResponse, FsError>,
    size: u32,
    len: nat,
)
    requires
        faithful(t, p),
        refusal(req) is Some,
        called(t, req, sent),
    ensures
        attr_reply(answer_view(sent)) == Err::<VAttr, FsError>(FsError::Os(refusal(req)->0)),
        attrs_reply(answer_view(sent), len) == Err::<Seq<Result<VAttr, FsError>>, FsError>(
            FsError::Os(refusal(req)->0),
        ),
        dir_reply(answer_view(sent)) == Err::<Seq<VDirEntryV>, FsError>(
            FsError::Os(refusal(req)->0),
        ),
        bytes_reply(answer_view(sent)) == Err::<Seq<u8>, FsError>(FsError::Os(refusal(req)->0)),
        data_reply(answer_view(sent), size) == Err::<Seq<u8>, FsError>(
            FsError::Os(refusal(req)->0),
        ),
        count_reply(answer_view(sent), len) == Err::<usize, FsError>(FsError::Os(refusal(req)->0)),
        done_reply(answer_view(sent)) == Err::<(), FsError>(FsError::Os(refusal(req)->0)),
        names_reply(answer_view(sent)) == Err::<Seq<Seq<u8>>, FsError>(
            FsError::Os(refusal(req)->0),
        ),
        statfs_reply(answer_view(sent)) == Err::<StatVfs64, FsError>(FsError::Os(refusal(req)->0)),
{
    let resp = choose|resp: ResponseV| #[trigger]
        served(p, req, resp) && answer_view(sent) == Ok::<ResponseV, FsError>(resp);
    refused_requests_get_their_errno(p, req, resp);
}

/// A request whose path is not valid is refused: the client sees the errno of the
/// verdict, whatever the provider.
pub proof fn invalid_paths_are_refused<T: VfsTransport, P: PathFs>(
    f: RpcPathFs<T>,
    p: P,
    path: Seq<u8>,
    got: Result<VAttr, FsError>,
)
    requires
        faithful(f.link(), p),
        path_check(path) is Err,
        replied_getattr(f, path, got),
    ensures
        got == bridged(Err::<VAttr, FsError>(path_check(path)->Err_0)),
{
    let sent = choose|sent: Result<VfsResponse, FsError>| #[trigger]
        called(f.link(), RequestV::GetAttr { path }, sent) && got == attr_reply(answer_view(sent));
    let r = lemma_answered(f.link(), p, RequestV::GetAttr { path }, sent);
}

} // verus!
