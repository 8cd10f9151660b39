//! The two ends of the bridge: what a request makes the serving side ask its provider, and
//! what a call makes the other side send.

use super::attributes::readlink_is;
use super::files::{flush_is, fsync_is};
use super::listings::fsyncdir_is;
use super::naming::{lemma_target_fault, target_fault};
use super::session::statfs_is;
use super::tree::{lemma_rename_flags, mkdir_is, remove_is, rename_is, rmdir_is, symlink_is};
use super::wire_forms::{
    hello_bytes, hello_fault, is_frame, kind_number, lemma_frame, lemma_hello, lemma_paths,
};
use super::xattrs::{
    attribute_fault, attribute_name, first_fault, getxattr_is, lemma_list, listxattr_is,
    removexattr_is, setxattr_is,
};
use super::{bytes_in, getattr_is, read_is, readdir_is};
use crate::abi::StatVfs64;
use crate::bytes::views;
use crate::error::{DataFault, FsError};
use crate::name_validation::{path_check, xattr_name_check};
use crate::path_fs::{NodeKind, PathFs, VAttr};
use crate::rpc::client::{RpcPathFs, VfsTransport};
use crate::rpc::dispatch::dispatch;
use crate::rpc::messages::{
    attr_of_wire, attr_wire, kinds_round_trip_over_the_wire, statfs_of_wire, statfs_wire, RequestV,
    ResponseV, StatFsWire, VAttrResult, VAttrWire, VfsRequest, VfsResponse,
};
use crate::rpc::serve::{serve, ServeAction, ServeEvent, ServeState};
use vstd::prelude::*;

verus! {

/// The response that tells of an error: its errno, or `EIO` where it has none.
pub open spec fn failed(e: FsError) -> ResponseV {
    match e {
        FsError::Os(errno) => ResponseV::Errno(errno),
        _ => ResponseV::Errno(5),
    }
}

/// The response to a request that is answered with attributes.
pub open spec fn told(reply: Result<VAttr, FsError>) -> ResponseV {
    match reply {
        Ok(attr) => ResponseV::Attr(attr_wire(attr)),
        Err(e) => failed(e),
    }
}

/// The response to a request that is only carried out.
pub open spec fn carried_out(reply: Result<(), FsError>) -> ResponseV {
    match reply {
        Ok(_) => ResponseV::Done,
        Err(e) => failed(e),
    }
}

/// A listing is answered with the names and kinds that the provider lists, up to 1048576 of
/// them, and a longer one with `EINVAL`.
pub proof fn listings_are_served<P: PathFs>(
    p: P,
    path: Vec<u8>,
    reply: Result<Seq<(Seq<u8>, NodeKind)>, FsError>,
    resp: VfsResponse,
)
    requires
        path_check(path@) is Ok,
        readdir_is(p, path@, reply),
        call_ensures(dispatch::<P>, (&p, VfsRequest::ReadDir { path }), resp),
    ensures
        match reply {
            Ok(seen) => if seen.len() <= 0x10_0000 {
                resp@ is Dir && resp@->Dir_0.len() == seen.len() && forall|i: int|
                    0 <= i < seen.len() ==> (#[trigger] resp@->Dir_0[i]).name == seen[i].0
                        && resp@->Dir_0[i].kind == kind_number(seen[i].1)
            } else {
                resp@ == ResponseV::Errno(22)
            },
            Err(e) => resp@ == failed(e),
        },
{
}

/// A link is answered with the target that the provider gives, and one that leads out of the
/// tree with the errno of what is wrong with it.
pub proof fn links_are_served<P: PathFs>(
    p: P,
    path: Vec<u8>,
    reply: Result<Seq<u8>, FsError>,
    resp: VfsResponse,
)
    requires
        path_check(path@) is Ok,
        readlink_is(p, path@, reply),
        call_ensures(dispatch::<P>, (&p, VfsRequest::ReadLink { path }), resp),
    ensures
        resp@ == (match reply {
            Ok(target) => if target_fault(target) == 0 {
                ResponseV::Bytes(target)
            } else {
                ResponseV::Errno(target_fault(target))
            },
            Err(e) => failed(e),
        }),
{
    if let Ok(target) = reply {
        lemma_target_fault(target);
    }
}

/// Attribute names are answered as the provider lists them; a list with a bad name is
/// answered with the errno of the first.
pub proof fn name_lists_are_served<P: PathFs>(
    p: P,
    path: Vec<u8>,
    reply: Result<Seq<Seq<u8>>, FsError>,
    resp: VfsResponse,
)
    requires
        path_check(path@) is Ok,
        listxattr_is(p, path@, reply),
        call_ensures(dispatch::<P>, (&p, VfsRequest::ListXattr { path }), resp),
    ensures
        match reply {
            Ok(names) => if forall|i: int|
                0 <= i < names.len() ==> attribute_name(#[trigger] names[i]) {
                resp@ == ResponseV::Names(names)
            } else {
                exists|i: int|
                    first_fault(names, i) && resp@ == failed(attribute_fault(#[trigger] names[i]))
            },
            Err(e) => resp@ == failed(e),
        },
{
    if let Ok(names) = reply {
        lemma_list(names);
    }
    assert forall|v: Seq<Vec<u8>>| #[trigger] views(v) == Seq::new(v.len(), |i: int| v[i]@) by {}
}

/// Attributes are answered as the provider gives them, for one path and for several: those
/// of each path, in order. More than 4096 paths are refused with `EINVAL`.
pub proof fn attributes_are_served<P: PathFs>(
    p: P,
    path: Vec<u8>,
    reply: Result<VAttr, FsError>,
    resp: VfsResponse,
    paths: Vec<Vec<u8>>,
    replies: Seq<Result<VAttr, FsError>>,
    many: VfsResponse,
)
    requires
        path_check(path@) is Ok,
        getattr_is(p, path@, reply),
        call_ensures(dispatch::<P>, (&p, VfsRequest::GetAttr { path }), resp),
        replies.len() == paths@.len(),
        forall|i: int|
            0 <= i < paths@.len() ==> getattr_is(p, paths@[i]@, #[trigger] replies[i]),
        call_ensures(dispatch::<P>, (&p, VfsRequest::GetAttrMany { paths }), many),
    ensures
        resp@ == told(reply),
        (forall|i: int| 0 <= i < paths@.len() ==> path_check((#[trigger] paths@[i])@) is Ok)
            && paths@.len() > 4096 ==> many@ == ResponseV::Errno(22),
        (forall|i: int| 0 <= i < paths@.len() ==> path_check((#[trigger] paths@[i])@) is Ok)
            && paths@.len() <= 4096 ==> many@ is AttrMany && many@->AttrMany_0.len() == paths@.len()
            && forall|i: int|
            0 <= i < paths@.len() ==> (match replies[i] {
                Ok(attr) => #[trigger] many@->AttrMany_0[i] == VAttrResult::Found(attr_wire(attr)),
                Err(e) => failed(e) == ResponseV::Errno(many@->AttrMany_0[i]->Errno_0)
                    && many@->AttrMany_0[i] is Errno,
            }),
{
    let all = views(paths@);
    if forall|i: int| 0 <= i < paths@.len() ==> path_check((#[trigger] paths@[i])@) is Ok {
        assert forall|i: int| 0 <= i < all.len() implies path_check(#[trigger] all[i]) is Ok by {
            assert(path_check(paths@[i]@) is Ok);
        }
        lemma_paths(all);
    }
}

/// Making nodes asks the provider for what the request says. A kind that there is not is
/// refused.
pub proof fn creations_are_served<P: PathFs>(
    p: P,
    path: Vec<u8>,
    target: Vec<u8>,
    mode: u32,
    w: VAttrWire,
    attr: VAttr,
    made: Result<VAttr, FsError>,
    created: Result<VAttr, FsError>,
    linked: Result<VAttr, FsError>,
    mkdir: VfsResponse,
    create: VfsResponse,
    symlink: VfsResponse,
)
    requires
        path_check(path@) is Ok,
        target_fault(target@) == 0,
        mkdir_is(p, path@, mode, made),
        w.kind <= 6 ==> attr_of_wire(w) == Ok::<VAttr, FsError>(attr),
        forall|q: &[u8], t: &VAttr, a: Result<VAttr, FsError>|
            q@ == path@ && *t == attr && #[trigger] call_ensures(P::create, (&p, q, t), a) ==> a
                == created,
        symlink_is(p, path@, target@, linked),
        call_ensures(dispatch::<P>, (&p, VfsRequest::Mkdir { path, mode }), mkdir),
        call_ensures(dispatch::<P>, (&p, VfsRequest::Create { path, attr: w }), create),
        call_ensures(dispatch::<P>, (&p, VfsRequest::Symlink { path, target }), symlink),
    ensures
        mkdir@ == told(made),
        create@ == (if w.kind <= 6 {
            told(created)
        } else {
            ResponseV::Errno(5)
        }),
        symlink@ == told(linked),
{
    lemma_target_fault(target@);
    kinds_round_trip_over_the_wire(NodeKind::File, w.kind);
}

/// Changing attributes asks the provider for those of the attributes that the request
/// selects, by the selection bits that there are.
pub proof fn changes_are_served<P: PathFs>(
    p: P,
    path: Vec<u8>,
    w: VAttrWire,
    attr: VAttr,
    valid: u32,
    reply: Result<VAttr, FsError>,
    resp: VfsResponse,
)
    requires
        path_check(path@) is Ok,
        w.kind <= 6 ==> attr_of_wire(w) == Ok::<VAttr, FsError>(attr),
        forall|q: &[u8], t: &VAttr, a: Result<VAttr, FsError>|
            q@ == path@ && *t == attr && #[trigger] call_ensures(
                P::setattr,
                (&p, q, t, valid & 0xdbf),
                a,
            ) ==> a == reply,
        call_ensures(dispatch::<P>, (&p, VfsRequest::SetAttr { path, attr: w, valid }), resp),
    ensures
        resp@ == (if w.kind <= 6 {
            told(reply)
        } else {
            ResponseV::Errno(5)
        }),
{
    kinds_round_trip_over_the_wire(NodeKind::File, w.kind);
}

/// A removal removes a directory as one and anything else as a file. Where it cannot be told
/// which it is, because there is nothing, it is left to the removal of a file to say so; any
/// other error is answered.
pub proof fn removals_are_served<P: PathFs>(
    p: P,
    path: Vec<u8>,
    found: Result<VAttr, FsError>,
    file: Result<(), FsError>,
    dir: Result<(), FsError>,
    resp: VfsResponse,
)
    requires
        path_check(path@) is Ok,
        getattr_is(p, path@, found),
        remove_is(p, path@, file),
        rmdir_is(p, path@, dir),
        call_ensures(dispatch::<P>, (&p, VfsRequest::Remove { path }), resp),
    ensures
        resp@ == (match found {
            Ok(attr) => if attr.kind == NodeKind::Dir {
                carried_out(dir)
            } else {
                carried_out(file)
            },
            Err(e) => if e == FsError::Os(2) {
                carried_out(file)
            } else {
                failed(e)
            },
        }),
{
}

/// A rename is carried out where its flags are none or the one that forbids to replace, and
/// is answered with `ENOSYS` where it asks for an exchange alone, and else with `EINVAL`.
pub proof fn renames_are_served<P: PathFs>(
    p: P,
    from: Vec<u8>,
    to: Vec<u8>,
    flags: u32,
    reply: Result<(), FsError>,
    resp: VfsResponse,
)
    requires
        path_check(from@) is Ok,
        path_check(to@) is Ok,
        rename_is(p, from@, to@, flags, reply),
        call_ensures(dispatch::<P>, (&p, VfsRequest::Rename { from, to, flags }), resp),
    ensures
        resp@ == (if flags == 0 || flags == 1 {
            carried_out(reply)
        } else if flags == 2 {
            ResponseV::Errno(38)
        } else {
            ResponseV::Errno(22)
        }),
{
    lemma_rename_flags(flags);
    assert((flags & !3u32 == 0 <==> flags <= 3) && 2u32 & 2 != 0 && 2u32 & 1 == 0 && 3u32 & 1 != 0
        && 3u32 & 2 != 0 && 1u32 & 2 == 0 && 0u32 & 2 == 0) by (bit_vector);
}

/// Requests on extended attributes ask the provider for just that.
pub proof fn attribute_requests_are_served<P: PathFs>(
    p: P,
    path: Vec<u8>,
    name: Vec<u8>,
    value: Vec<u8>,
    flags: u32,
    stored: Result<(), FsError>,
    got: Result<Seq<u8>, FsError>,
    dropped: Result<(), FsError>,
    set: VfsResponse,
    get: VfsResponse,
    remove: VfsResponse,
)
    requires
        path_check(path@) is Ok,
        xattr_name_check(name@) is Ok,
        setxattr_is(p, path@, name@, value@, flags, stored),
        getxattr_is(p, path@, name@, got),
        removexattr_is(p, path@, name@, dropped),
        call_ensures(dispatch::<P>, (&p, VfsRequest::SetXattr { path, name, value, flags }), set),
        call_ensures(dispatch::<P>, (&p, VfsRequest::GetXattr { path, name }), get),
        call_ensures(dispatch::<P>, (&p, VfsRequest::RemoveXattr { path, name }), remove),
    ensures
        set@ == carried_out(stored),
        get@ == (match got {
            Ok(value) => ResponseV::Bytes(value),
            Err(e) => failed(e),
        }),
        remove@ == carried_out(dropped),
{
}

/// Flushing and syncing are carried out by the provider, which also has the statistics.
pub proof fn syncs_are_served<P: PathFs>(
    p: P,
    path: Vec<u8>,
    datasync: bool,
    flushed: Result<(), FsError>,
    synced: Result<(), FsError>,
    refreshed: Result<(), FsError>,
    stat: Result<StatVfs64, FsError>,
    flush: VfsResponse,
    fsync: VfsResponse,
    fsyncdir: VfsResponse,
    statfs: VfsResponse,
)
    requires
        path_check(path@) is Ok,
        flush_is(p, path@, flushed),
        fsync_is(p, path@, datasync, synced),
        fsyncdir_is(p, path@, refreshed),
        statfs_is(p, stat),
        call_ensures(dispatch::<P>, (&p, VfsRequest::Flush { path }), flush),
        call_ensures(dispatch::<P>, (&p, VfsRequest::Fsync { path, datasync }), fsync),
        call_ensures(dispatch::<P>, (&p, VfsRequest::FsyncDir { path }), fsyncdir),
        call_ensures(dispatch::<P>, (&p, VfsRequest::StatFs), statfs),
    ensures
        flush@ == carried_out(flushed),
        fsync@ == carried_out(synced),
        fsyncdir@ == carried_out(refreshed),
        statfs@ == (match stat {
            Ok(s) => ResponseV::StatFs(statfs_wire(s)),
            Err(e) => failed(e),
        }),
{
}

/// Every answer of the peer to the request `req` is `resp`.
pub open spec fn peer_answers<T: VfsTransport>(t: T, req: RequestV, resp: ResponseV) -> bool {
    forall|q: VfsRequest, a: Result<VfsResponse, FsError>|
        q@ == req && #[trigger] call_ensures(T::call, (&t, q), a) ==> a is Ok && a->Ok_0@ == resp
}

/// The attributes that a response stands for.
pub open spec fn attr_taken(resp: ResponseV) -> Result<VAttr, FsError> {
    match resp {
        ResponseV::Attr(w) => if w.kind <= 6 {
            attr_of_wire(w)
        } else {
            Err(FsError::InvalidData(DataFault::UnknownNodeKind))
        },
        ResponseV::Errno(errno) => Err(FsError::Os(errno)),
        _ => Err(FsError::Os(5)),
    }
}

/// Whether a response says that the request was carried out.
pub open spec fn done_taken(resp: ResponseV) -> Result<(), FsError> {
    match resp {
        ResponseV::Done => Ok(()),
        ResponseV::Errno(errno) => Err(FsError::Os(errno)),
        _ => Err(FsError::Os(5)),
    }
}

/// The bytes that a response stands for.
pub open spec fn bytes_taken(resp: ResponseV) -> Result<Seq<u8>, FsError> {
    match resp {
        ResponseV::Bytes(b) => Ok(b),
        ResponseV::Errno(errno) => Err(FsError::Os(errno)),
        _ => Err(FsError::Os(5)),
    }
}

/// A remote provider asks its peer for what it is asked for, under the same path, and hands
/// out the attributes that come back.
pub proof fn remote_attributes_are_asked_for<T: VfsTransport>(
    f: RpcPathFs<T>,
    path: &[u8],
    target: &[u8],
    attr: &VAttr,
    mode: u32,
    a1: ResponseV,
    a2: ResponseV,
    a3: ResponseV,
    a4: ResponseV,
    a5: ResponseV,
    got: Result<VAttr, FsError>,
    made: Result<VAttr, FsError>,
    created: Result<VAttr, FsError>,
    changed: Result<VAttr, FsError>,
    linked: Result<VAttr, FsError>,
)
    requires
        peer_answers(f.link(), RequestV::GetAttr { path: path@ }, a1),
        peer_answers(f.link(), RequestV::Mkdir { path: path@, mode }, a2),
        peer_answers(f.link(), RequestV::Create { path: path@, attr: attr_wire(*attr) }, a3),
        peer_answers(
            f.link(),
            RequestV::SetAttr { path: path@, attr: attr_wire(*attr), valid: mode },
            a4,
        ),
        peer_answers(f.link(), RequestV::Symlink { path: path@, target: target@ }, a5),
        call_ensures(RpcPathFs::<T>::getattr, (&f, path), got),
        call_ensures(RpcPathFs::<T>::mkdir, (&f, path, mode), made),
        call_ensures(RpcPathFs::<T>::create, (&f, path, attr), created),
        call_ensures(RpcPathFs::<T>::setattr, (&f, path, attr, mode), changed),
        call_ensures(RpcPathFs::<T>::symlink, (&f, path, target), linked),
    ensures
        got == attr_taken(a1),
        made == attr_taken(a2),
        created == attr_taken(a3),
        changed == attr_taken(a4),
        linked == attr_taken(a5),
{
    lemma_attr_taken(a1);
    lemma_attr_taken(a2);
    lemma_attr_taken(a3);
    lemma_attr_taken(a4);
    lemma_attr_taken(a5);
}

/// Attributes with a kind that there is not are refused.
proof fn lemma_attr_taken(resp: ResponseV)
    ensures
        resp matches ResponseV::Attr(w) ==> w.kind > 6 ==> attr_of_wire(w) == Err::<
            VAttr,
            FsError,
        >(FsError::InvalidData(DataFault::UnknownNodeKind)),
{
    if let ResponseV::Attr(w) = resp {
        kinds_round_trip_over_the_wire(NodeKind::File, w.kind);
    }
}

/// A remote provider has its peer carry out what it is to carry out: removals of files and of
/// directories alike as removals, and a plain rename as one without flags.
pub proof fn remote_requests_are_carried_out<T: VfsTransport>(
    f: RpcPathFs<T>,
    path: &[u8],
    other: &[u8],
    value: &[u8],
    flags: u32,
    datasync: bool,
    a1: ResponseV,
    a2: ResponseV,
    a3: ResponseV,
    a4: ResponseV,
    a5: ResponseV,
    removed: Result<(), FsError>,
    emptied: Result<(), FsError>,
    moved: Result<(), FsError>,
    renamed: Result<(), FsError>,
    stored: Result<(), FsError>,
    dropped: Result<(), FsError>,
)
    requires
        peer_answers(f.link(), RequestV::Remove { path: path@ }, a1),
        peer_answers(f.link(), RequestV::Rename { from: path@, to: other@, flags: 0 }, a2),
        peer_answers(f.link(), RequestV::Rename { from: path@, to: other@, flags }, a3),
        peer_answers(
            f.link(),
            RequestV::SetXattr { path: path@, name: other@, value: value@, flags },
            a4,
        ),
        peer_answers(f.link(), RequestV::RemoveXattr { path: path@, name: other@ }, a5),
        call_ensures(RpcPathFs::<T>::remove, (&f, path), removed),
        call_ensures(RpcPathFs::<T>::rmdir, (&f, path), emptied),
        call_ensures(RpcPathFs::<T>::rename, (&f, path, other), moved),
        call_ensures(RpcPathFs::<T>::rename_with_flags, (&f, path, other, flags), renamed),
        call_ensures(RpcPathFs::<T>::setxattr, (&f, path, other, value, flags), stored),
        call_ensures(RpcPathFs::<T>::removexattr, (&f, path, other), dropped),
    ensures
        removed == done_taken(a1) && emptied == done_taken(a1),
        moved == done_taken(a2),
        renamed == done_taken(a3),
        stored == done_taken(a4),
        dropped == done_taken(a5),
{
}

/// A remote provider has its peer flush and sync, and takes the statistics of the peer.
pub proof fn remote_syncs_are_carried_out<T: VfsTransport>(
    f: RpcPathFs<T>,
    path: &[u8],
    datasync: bool,
    a1: ResponseV,
    a2: ResponseV,
    a3: ResponseV,
    w: StatFsWire,
    flushed: Result<(), FsError>,
    synced: Result<(), FsError>,
    refreshed: Result<(), FsError>,
    stat: Result<StatVfs64, FsError>,
)
    requires
        peer_answers(f.link(), RequestV::Flush { path: path@ }, a1),
        peer_answers(f.link(), RequestV::Fsync { path: path@, datasync }, a2),
        peer_answers(f.link(), RequestV::FsyncDir { path: path@ }, a3),
        peer_answers(f.link(), RequestV::StatFs, ResponseV::StatFs(w)),
        call_ensures(RpcPathFs::<T>::flush, (&f, path), flushed),
        call_ensures(RpcPathFs::<T>::fsync, (&f, path, datasync), synced),
        call_ensures(RpcPathFs::<T>::fsyncdir, (&f, path), refreshed),
        call_ensures(RpcPathFs::<T>::statfs, (&f,), stat),
    ensures
        flushed == done_taken(a1),
        synced == done_taken(a2),
        refreshed == done_taken(a3),
        stat == Ok::<StatVfs64, FsError>(statfs_of_wire(w)),
{
}

/// A remote provider hands out the bytes that its peer returns: links and attribute values as
/// they are, contents up to what was asked for. It asks for no more than 128 KiB at once, and
/// does not send more either.
pub proof fn remote_bytes_are_handed_out<T: VfsTransport>(
    f: RpcPathFs<T>,
    path: &[u8],
    name: &[u8],
    offset: u64,
    size: u32,
    data: &[u8],
    a1: ResponseV,
    a2: ResponseV,
    a3: ResponseV,
    count: u64,
    target: Result<Vec<u8>, FsError>,
    value: Result<Vec<u8>, FsError>,
    read: Result<Vec<u8>, FsError>,
    written: Result<usize, FsError>,
)
    requires
        peer_answers(f.link(), RequestV::ReadLink { path: path@ }, a1),
        peer_answers(f.link(), RequestV::GetXattr { path: path@, name: name@ }, a2),
        peer_answers(
            f.link(),
            RequestV::Read {
                path: path@,
                offset,
                size: if size > 0x2_0000 {
                    0x2_0000
                } else {
                    size
                },
            },
            a3,
        ),
        data@.len() <= 0x2_0000 ==> peer_answers(
            f.link(),
            RequestV::Write { path: path@, offset, data: data@ },
            ResponseV::Count(count),
        ),
        call_ensures(RpcPathFs::<T>::readlink, (&f, path), target),
        call_ensures(RpcPathFs::<T>::getxattr, (&f, path, name), value),
        call_ensures(RpcPathFs::<T>::read, (&f, path, offset, size), read),
        call_ensures(RpcPathFs::<T>::write, (&f, path, offset, data), written),
    ensures
        bytes_in(target) == bytes_taken(a1),
        bytes_in(value) == bytes_taken(a2),
        match bytes_taken(a3) {
            Ok(b) => if b.len() <= size && b.len() <= 0x2_0000 {
                bytes_in(read) == Ok::<Seq<u8>, FsError>(b)
            } else {
                bytes_in(read) == Err::<Seq<u8>, FsError>(
                    FsError::InvalidData(DataFault::ReadTooLong),
                )
            },
            Err(e) => bytes_in(read) == Err::<Seq<u8>, FsError>(e),
        },
        data@.len() > 0x2_0000 ==> written == Err::<usize, FsError>(FsError::Os(22)),
        data@.len() <= 0x2_0000 && count <= data@.len() ==> written is Ok && written->Ok_0 == count,
        data@.len() <= 0x2_0000 && count > data@.len() ==> written == Err::<usize, FsError>(
            FsError::InvalidData(DataFault::WriteTooLong),
        ),
{
}

/// Whether the next thing to do is to write the frame of `payload` under `id`.
pub open spec fn writes_frame(id: u64, payload: Seq<u8>, r: (ServeState, ServeAction)) -> bool {
    &&& r.0 is Writing
    &&& r.1 is Write
    &&& is_frame(r.1->Write_0@, id, payload)
}

/// Whether serving ends with `end`.
pub open spec fn stops(end: Result<(), FsError>, r: (ServeState, ServeAction)) -> bool {
    r.0 is Closed && r.1 is Stop && r.1->Stop_0 == end
}

/// A connection starts with the hello of both sides. After that a request is read, a response
/// encoded and written under the id of the request, and so on, until the input ends. A
/// response of more than 8 MiB is replaced with `EIO`.
pub proof fn connections_take_their_course<P: PathFs>(
    p: P,
    state: ServeState,
    event: ServeEvent,
    r: (ServeState, ServeAction),
)
    requires
        call_ensures(serve::<P>, (&p, state, event), r),
    ensures
        match (state, event) {
            (ServeState::AwaitingHello, ServeEvent::Hello(bytes)) => if bytes@.len() >= 8
                && bytes@.take(8) == hello_bytes() {
                r.0 is Writing && r.1 is Write && r.1->Write_0@ == hello_bytes()
            } else {
                stops(Err(hello_fault(bytes@)), r)
            },
            (ServeState::Writing, ServeEvent::Written(Ok(_))) => r.0 is AwaitingRequest
                && r.1 is ReadRequest,
            (ServeState::Writing, ServeEvent::Written(Err(e))) => stops(Err(e), r),
            (ServeState::AwaitingRequest, ServeEvent::ReadFailed(e)) => if e
                == FsError::UnexpectedEof {
                stops(Ok(()), r)
            } else {
                stops(Err(e), r)
            },
            (ServeState::AwaitingRequest, ServeEvent::Request { id, request }) => r.0
                == (ServeState::Encoding { id }) && r.1 is Encode && (match request {
                Err(FsError::Os(errno)) => r.1->Encode_0@ == ResponseV::Errno(errno),
                Err(_) => r.1->Encode_0@ == ResponseV::Errno(22),
                Ok(_) => true,
            }),
            (ServeState::Encoding { id }, ServeEvent::Encoded(payload)) => if payload@.len()
                <= 0x80_0000 {
                writes_frame(id, payload@, r)
            } else {
                r.0 == (ServeState::EncodingFailure { id }) && r.1 is Encode && r.1->Encode_0@
                    == ResponseV::Errno(5)
            },
            (ServeState::EncodingFailure { id }, ServeEvent::Encoded(payload)) => if payload@.len()
                <= 0x80_0000 {
                writes_frame(id, payload@, r)
            } else {
                stops(Err(FsError::InvalidInput), r)
            },
            _ => stops(Err(FsError::Other), r),
        },
{
    if let ServeEvent::Hello(bytes) = event {
        lemma_hello(bytes@);
    }
    if let ServeEvent::Encoded(payload) = event {
        if payload@.len() <= 0x80_0000 {
            match state {
                ServeState::Encoding { id } => lemma_frame(id, payload@),
                ServeState::EncodingFailure { id } => lemma_frame(id, payload@),
                _ => {},
            }
        }
    }
}

/// A request for attributes that arrives is answered with those that the provider gives, and
/// one for more than 128 KiB of content with `EINVAL`.
pub proof fn requests_are_answered_as_they_arrive<P: PathFs>(
    p: P,
    id: u64,
    path: Vec<u8>,
    reply: Result<VAttr, FsError>,
    r: (ServeState, ServeAction),
    offset: u64,
    size: u32,
    content: Result<Seq<u8>, FsError>,
    s: (ServeState, ServeAction),
)
    requires
        path_check(path@) is Ok,
        getattr_is(p, path@, reply),
        size <= 0x2_0000 ==> read_is(p, path@, offset, size, content),
        call_ensures(
            serve::<P>,
            (
                &p,
                ServeState::AwaitingRequest,
                ServeEvent::Request { id, request: Ok(VfsRequest::GetAttr { path }) },
            ),
            r,
        ),
        call_ensures(
            serve::<P>,
            (
                &p,
                ServeState::AwaitingRequest,
                ServeEvent::Request { id, request: Ok(VfsRequest::Read { path, offset, size }) },
            ),
            s,
        ),
    ensures
        r.1 is Encode && r.1->Encode_0@ == told(reply),
        s.1 is Encode && s.1->Encode_0@ == (if size > 0x2_0000 {
            ResponseV::Errno(22)
        } else {
            match content {
                Ok(data) => if data.len() <= size {
                    ResponseV::Bytes(data)
                } else {
                    ResponseV::Errno(5)
                },
                Err(e) => failed(e),
            }
        }),
{
}

} // verus!
