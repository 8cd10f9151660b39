//! [`RpcPathFs`]: a provider whose semantics live behind a [`VfsTransport`].
//!
//! Each provider call is turned into a [`VfsRequest`], sent over the transport,
//! and decoded from the [`VfsResponse`]. The mirror image, the server side that
//! answers a request from a real provider, is
//! [`dispatch`](super::dispatch::dispatch).

use super::dispatch::{answer_view, entries_view};
use super::limits::{clamp_io_size, clamped_size};
use super::messages::{
    attr_of_wire, attr_wire, entry_of_wire, entry_wire_views, statfs_of_wire, DirEntryWireV,
    RequestV, ResponseV, VAttrResult, VAttrWire, VDirEntryWire, VfsRequest, VfsResponse,
};
use super::protocol::{MAX_BATCH_PATHS, MAX_IO_SIZE};
use crate::abi::StatVfs64;
use crate::bytes::{copy_bytes, views};
use crate::error::{DataFault, FsError};
use crate::path_fs::{entry_views, PathFs, VAttr, VDirEntry, VDirEntryV};
use crate::platform::{einval, eio, LINUX_EINVAL, LINUX_EIO};
use crate::replies::slice_views;
use crate::vfs::bytes_of;
use crate::vfs::xattr_ops::names_of;
use vstd::prelude::*;

verus! {

/// A request/response channel to the process that owns the real provider.
///
/// Implementations must be `Send + Sync`: the scaffold may call the provider
/// from several FUSE worker threads. Nothing is promised of a response.
pub trait VfsTransport: Send + Sync {
    /// Send one request and block for its response.
    fn call(&self, req: VfsRequest) -> Result<VfsResponse, FsError>;
}

/// `r` came back over the transport for the request `req`.
pub open spec fn called<T: VfsTransport>(
    t: T,
    req: RequestV,
    r: Result<VfsResponse, FsError>,
) -> bool {
    exists|q: VfsRequest| q@ == req && #[trigger] call_ensures(T::call, (&t, q), r)
}

/// The error that an unexpected response stands for: the errno it carries, or
/// else `EIO`.
pub open spec fn unexpected_error(resp: ResponseV) -> FsError {
    match resp {
        ResponseV::Errno(errno) => FsError::Os(errno),
        _ => FsError::Os(LINUX_EIO),
    }
}

/// Map an unexpected (or failed) response to an error.
pub fn unexpected(resp: VfsResponse) -> (r: FsError)
    ensures
        r == unexpected_error(resp@),
{
    match resp {
        VfsResponse::Errno(errno) => FsError::Os(errno),
        _ => eio(),
    }
}

/// The attributes in a response.
pub open spec fn attr_reply(resp: Result<ResponseV, FsError>) -> Result<VAttr, FsError> {
    match resp {
        Err(e) => Err(e),
        Ok(ResponseV::Attr(a)) => attr_of_wire(a),
        Ok(other) => Err(unexpected_error(other)),
    }
}

/// Decode attributes.
pub fn decode_attr(resp: Result<VfsResponse, FsError>) -> (r: Result<VAttr, FsError>)
    ensures
        r == attr_reply(answer_view(resp)),
{
    match resp {
        Err(e) => Err(e),
        Ok(VfsResponse::Attr(a)) => a.into_vattr(),
        Ok(other) => Err(unexpected(other)),
    }
}

/// The attributes that one result of a batch stands for.
pub open spec fn batch_reply(result: VAttrResult) -> Result<VAttr, FsError> {
    match result {
        VAttrResult::Found(a) => attr_of_wire(a),
        VAttrResult::Errno(errno) => Err(FsError::Os(errno)),
    }
}

/// The results in the response to a batch of `n` paths.
pub open spec fn attrs_reply(resp: Result<ResponseV, FsError>, n: nat) -> Result<
    Seq<Result<VAttr, FsError>>,
    FsError,
> {
    match resp {
        Err(e) => Err(e),
        Ok(ResponseV::AttrMany(results)) => if results.len() != n {
            Err(FsError::InvalidData(DataFault::BatchMismatch))
        } else {
            Ok(Seq::new(results.len(), |i: int| batch_reply(results[i])))
        },
        Ok(other) => Err(unexpected_error(other)),
    }
}

/// The results of a reply.
pub open spec fn attrs_view(r: Result<Vec<Result<VAttr, FsError>>, FsError>) -> Result<
    Seq<Result<VAttr, FsError>>,
    FsError,
> {
    match r {
        Ok(attrs) => Ok(attrs@),
        Err(e) => Err(e),
    }
}

/// Decode the results of a batch of `n` paths.
pub fn decode_attrs(resp: Result<VfsResponse, FsError>, n: usize) -> (r: Result<
    Vec<Result<VAttr, FsError>>,
    FsError,
>)
    ensures
        attrs_view(r) == attrs_reply(answer_view(resp), n as nat),
{
    let results = match resp {
        Err(e) => {
            return Err(e);
        },
        Ok(VfsResponse::AttrMany(results)) => results,
        Ok(other) => {
            return Err(unexpected(other));
        },
    };
    if results.len() != n {
        return Err(FsError::InvalidData(DataFault::BatchMismatch));
    }
    let mut attrs: Vec<Result<VAttr, FsError>> = Vec::new();
    let mut i: usize = 0;
    while i < results.len()
        invariant
            i <= results.len(),
            attrs.len() == i,
            forall|j: int| 0 <= j < i ==> #[trigger] attrs@[j] == batch_reply(results@[j]),
        decreases results.len() - i,
    {
        let attr = match results[i] {
            VAttrResult::Found(a) => a.into_vattr(),
            VAttrResult::Errno(errno) => Err(FsError::Os(errno)),
        };
        attrs.push(attr);
        i += 1;
    }
    assert(attrs@ =~= Seq::new(results@.len(), |i: int| batch_reply(results@[i])));
    Ok(attrs)
}

/// The entries that a list of wire entries stands for, unless one of them is
/// malformed: the first such one decides.
pub open spec fn listing_of_wire(entries: Seq<DirEntryWireV>) -> Result<Seq<VDirEntryV>, FsError>
    decreases entries.len(),
{
    if entries.len() == 0 {
        Ok(Seq::empty())
    } else {
        match listing_of_wire(entries.drop_last()) {
            Err(e) => Err(e),
            Ok(before) => match entry_of_wire(entries.last()) {
                Err(e) => Err(e),
                Ok(entry) => Ok(before.push(entry)),
            },
        }
    }
}

/// The directory listing in a response.
pub open spec fn dir_reply(resp: Result<ResponseV, FsError>) -> Result<Seq<VDirEntryV>, FsError> {
    match resp {
        Err(e) => Err(e),
        Ok(ResponseV::Dir(entries)) => listing_of_wire(entries),
        Ok(other) => Err(unexpected_error(other)),
    }
}

/// A prefix of a listing that is malformed makes the listing malformed alike.
proof fn lemma_listing_prefix(entries: Seq<DirEntryWireV>, n: int)
    requires
        0 <= n <= entries.len(),
        listing_of_wire(entries.take(n)) is Err,
    ensures
        listing_of_wire(entries) == listing_of_wire(entries.take(n)),
    decreases entries.len() - n,
{
    if n < entries.len() {
        assert(entries.take(n + 1).drop_last() =~= entries.take(n));
        lemma_listing_prefix(entries, n + 1);
    } else {
        assert(entries.take(n) =~= entries);
    }
}

/// Convert a list of wire entries.
fn entries_from_wire(wire: &Vec<VDirEntryWire>) -> (r: Result<Vec<VDirEntry>, FsError>)
    ensures
        entries_view(r) == listing_of_wire(entry_wire_views(wire@)),
{
    let ghost all = entry_wire_views(wire@);
    let mut entries: Vec<VDirEntry> = Vec::new();
    let mut i: usize = 0;
    assert(all.take(0) =~= Seq::<DirEntryWireV>::empty());
    assert(entry_views(entries@) =~= Seq::empty());
    while i < wire.len()
        invariant
            i <= wire.len(),
            all == entry_wire_views(wire@),
            listing_of_wire(all.take(i as int)) == Ok::<Seq<VDirEntryV>, FsError>(
                entry_views(entries@),
            ),
        decreases wire.len() - i,
    {
        proof {
            assert(all.take(i + 1).drop_last() =~= all.take(i as int));
            assert(all.take(i + 1).last() == wire@[i as int]@);
        }
        let one = VDirEntryWire { name: copy_bytes(wire[i].name.as_slice()), kind: wire[i].kind };
        assert(one@ == wire@[i as int]@);
        match one.into_entry() {
            Err(e) => {
                proof {
                    lemma_listing_prefix(all, i + 1);
                }
                return Err(e);
            },
            Ok(entry) => {
                let ghost before = entry_views(entries@);
                entries.push(entry);
                assert(entry_views(entries@) =~= before.push(entry@));
            },
        }
        i += 1;
    }
    assert(all.take(all.len() as int) =~= all);
    Ok(entries)
}

/// Decode a directory listing.
pub fn decode_dir(resp: Result<VfsResponse, FsError>) -> (r: Result<Vec<VDirEntry>, FsError>)
    ensures
        entries_view(r) == dir_reply(answer_view(resp)),
{
    match resp {
        Err(e) => Err(e),
        Ok(VfsResponse::Dir(entries)) => entries_from_wire(&entries),
        Ok(other) => Err(unexpected(other)),
    }
}

/// The bytes in a response.
pub open spec fn bytes_reply(resp: Result<ResponseV, FsError>) -> Result<Seq<u8>, FsError> {
    match resp {
        Err(e) => Err(e),
        Ok(ResponseV::Bytes(b)) => Ok(b),
        Ok(other) => Err(unexpected_error(other)),
    }
}

/// Decode raw bytes.
pub fn decode_bytes(resp: Result<VfsResponse, FsError>) -> (r: Result<Vec<u8>, FsError>)
    ensures
        bytes_of(r) == bytes_reply(answer_view(resp)),
{
    match resp {
        Err(e) => Err(e),
        Ok(VfsResponse::Bytes(b)) => Ok(b),
        Ok(other) => Err(unexpected(other)),
    }
}

/// The data in the response to a read of `size` bytes. A reply that is longer
/// breaks the protocol: truncating it would drop the tail.
pub open spec fn data_reply(resp: Result<ResponseV, FsError>, size: u32) -> Result<
    Seq<u8>,
    FsError,
> {
    match bytes_reply(resp) {
        Err(e) => Err(e),
        Ok(data) => if data.len() > size {
            Err(FsError::InvalidData(DataFault::ReadTooLong))
        } else {
            Ok(data)
        },
    }
}

/// Decode the data of a read of `size` bytes.
pub fn decode_data(resp: Result<VfsResponse, FsError>, size: u32) -> (r: Result<
    Vec<u8>,
    FsError,
>)
    ensures
        bytes_of(r) == data_reply(answer_view(resp), size),
{
    match decode_bytes(resp) {
        Err(e) => Err(e),
        Ok(data) => {
            if data.len() > size as usize {
                return Err(FsError::InvalidData(DataFault::ReadTooLong));
            }
            Ok(data)
        },
    }
}

/// The count in the response to a write of `len` bytes.
pub open spec fn count_reply(resp: Result<ResponseV, FsError>, len: nat) -> Result<
    usize,
    FsError,
> {
    match resp {
        Err(e) => Err(e),
        Ok(ResponseV::Count(n)) => if n > len {
            Err(FsError::InvalidData(DataFault::WriteTooLong))
        } else {
            Ok(n as usize)
        },
        Ok(other) => Err(unexpected_error(other)),
    }
}

/// Decode the count of a write of `len` bytes.
pub fn decode_count(resp: Result<VfsResponse, FsError>, len: usize) -> (r: Result<usize, FsError>)
    ensures
        r == count_reply(answer_view(resp), len as nat),
{
    match resp {
        Err(e) => Err(e),
        Ok(VfsResponse::Count(n)) => {
            if n > len as u64 {
                return Err(FsError::InvalidData(DataFault::WriteTooLong));
            }
            Ok(n as usize)
        },
        Ok(other) => Err(unexpected(other)),
    }
}

/// The success in a response.
pub open spec fn done_reply(resp: Result<ResponseV, FsError>) -> Result<(), FsError> {
    match resp {
        Err(e) => Err(e),
        Ok(ResponseV::Done) => Ok(()),
        Ok(other) => Err(unexpected_error(other)),
    }
}

/// Decode a success without payload.
pub fn decode_done(resp: Result<VfsResponse, FsError>) -> (r: Result<(), FsError>)
    ensures
        r == done_reply(answer_view(resp)),
{
    match resp {
        Err(e) => Err(e),
        Ok(VfsResponse::Done) => Ok(()),
        Ok(other) => Err(unexpected(other)),
    }
}

/// The names in a response.
pub open spec fn names_reply(resp: Result<ResponseV, FsError>) -> Result<Seq<Seq<u8>>, FsError> {
    match resp {
        Err(e) => Err(e),
        Ok(ResponseV::Names(names)) => Ok(names),
        Ok(other) => Err(unexpected_error(other)),
    }
}

/// Decode extended-attribute names.
pub fn decode_names(resp: Result<VfsResponse, FsError>) -> (r: Result<Vec<Vec<u8>>, FsError>)
    ensures
        names_of(r) == names_reply(answer_view(resp)),
{
    match resp {
        Err(e) => Err(e),
        Ok(VfsResponse::Names(names)) => Ok(names),
        Ok(other) => Err(unexpected(other)),
    }
}

/// The statistics in a response.
pub open spec fn statfs_reply(resp: Result<ResponseV, FsError>) -> Result<StatVfs64, FsError> {
    match resp {
        Err(e) => Err(e),
        Ok(ResponseV::StatFs(s)) => Ok(statfs_of_wire(s)),
        Ok(other) => Err(unexpected_error(other)),
    }
}

/// Decode volume statistics.
pub fn decode_statfs(resp: Result<VfsResponse, FsError>) -> (r: Result<StatVfs64, FsError>)
    ensures
        r == statfs_reply(answer_view(resp)),
{
    match resp {
        Err(e) => Err(e),
        Ok(VfsResponse::StatFs(s)) => Ok(s.into_statvfs()),
        Ok(other) => Err(unexpected(other)),
    }
}

/// A provider backed by a [`VfsTransport`].
pub struct RpcPathFs<T: VfsTransport> {
    transport: T,
}

impl<T: VfsTransport> RpcPathFs<T> {
    /// The underlying transport.
    pub closed spec fn link(&self) -> T {
        self.transport
    }

    /// Wrap a transport.
    pub fn new(transport: T) -> (r: RpcPathFs<T>)
        ensures
            r.link() == transport,
    {
        RpcPathFs { transport }
    }

    /// Borrow the underlying transport.
    pub fn transport(&self) -> (r: &T)
        ensures
            *r == self.link(),
    {
        &self.transport
    }

    /// Send one request.
    fn send(&self, req: VfsRequest) -> (r: Result<VfsResponse, FsError>)
        ensures
            called(self.link(), req@, r),
    {
        let ghost q = req;
        let r = self.transport.call(req);
        assert(call_ensures(T::call, (&self.transport, q), r));
        r
    }
}

/// The batches a list of paths is sent in: the `k`-th one.
pub open spec fn batch(paths: Seq<Seq<u8>>, k: int) -> Seq<Seq<u8>> {
    let start = k * MAX_BATCH_PATHS;
    let end = if start + MAX_BATCH_PATHS < paths.len() {
        start + MAX_BATCH_PATHS
    } else {
        paths.len() as int
    };
    paths.subrange(start, end)
}

/// The number of batches a list of paths is sent in.
pub open spec fn batch_count(paths: Seq<Seq<u8>>) -> int {
    (paths.len() + MAX_BATCH_PATHS - 1) / (MAX_BATCH_PATHS as int)
}

/// What the responses to the batches amount to together: all their results in
/// order, or the first failure.
pub open spec fn collected(
    paths: Seq<Seq<u8>>,
    responses: Seq<Result<VfsResponse, FsError>>,
) -> Result<Seq<Result<VAttr, FsError>>, FsError>
    decreases responses.len(),
{
    if responses.len() == 0 {
        Ok(Seq::empty())
    } else {
        match collected(paths, responses.drop_last()) {
            Err(e) => Err(e),
            Ok(before) => match attrs_reply(
                answer_view(responses.last()),
                batch(paths, responses.len() - 1).len(),
            ) {
                Err(e) => Err(e),
                Ok(part) => Ok(before + part),
            },
        }
    }
}

/// A batched getattr over a transport: the paths are sent batch by batch, until
/// all are answered or one batch fails as a whole.
pub open spec fn sent_in_batches<T: VfsTransport>(
    t: T,
    paths: Seq<Seq<u8>>,
    r: Result<Seq<Result<VAttr, FsError>>, FsError>,
) -> bool {
    exists|responses: Seq<Result<VfsResponse, FsError>>|
        {
            &&& r == #[trigger] collected(paths, responses)
            &&& responses.len() <= batch_count(paths)
            &&& r is Ok ==> responses.len() == batch_count(paths)
            &&& responses.len() > 0 ==> collected(paths, responses.drop_last()) is Ok
            &&& forall|k: int|
                0 <= k < responses.len() ==> called(
                    t,
                    RequestV::GetAttrMany { paths: batch(paths, k) },
                    #[trigger] responses[k],
                )
        }
}

/// Copies of the paths from `start` up to `end`.
fn copy_paths(paths: &[&[u8]], start: usize, end: usize) -> (r: Vec<Vec<u8>>)
    requires
        start <= end <= paths@.len(),
    ensures
        views(r@) == slice_views(paths@).subrange(start as int, end as int),
{
    let mut r: Vec<Vec<u8>> = Vec::new();
    let mut i: usize = start;
    while i < end
        invariant
            start <= i <= end <= paths@.len(),
            r@.len() == i - start,
            forall|j: int| 0 <= j < i - start ==> (#[trigger] r@[j])@ == paths@[start + j]@,
        decreases end - i,
    {
        r.push(copy_bytes(paths[i]));
        i += 1;
    }
    assert(views(r@) =~= slice_views(paths@).subrange(start as int, end as int));
    r
}

/// Append the results of one batch.
fn append_attrs(all: &mut Vec<Result<VAttr, FsError>>, part: Vec<Result<VAttr, FsError>>)
    ensures
        final(all)@ == old(all)@ + part@,
{
    let mut i: usize = 0;
    while i < part.len()
        invariant
            i <= part.len(),
            all@ == old(all)@ + part@.take(i as int),
        decreases part.len() - i,
    {
        all.push(part[i]);
        assert(part@.take(i + 1) =~= part@.take(i as int).push(part@[i as int]));
        i += 1;
    }
    assert(part@.take(part@.len() as int) =~= part@);
}

impl<T: VfsTransport> PathFs for RpcPathFs<T> {
    fn getattr(&self, path: &[u8]) -> (r: Result<VAttr, FsError>)
        ensures
            exists|a: Result<VfsResponse, FsError>| #[trigger]
                called(self.link(), RequestV::GetAttr { path: path@ }, a) && r == attr_reply(
                    answer_view(a),
                ),
    {
        let a = self.send(VfsRequest::GetAttr { path: copy_bytes(path) });
        decode_attr(a)
    }

    fn getattr_many(&self, paths: &[&[u8]]) -> (r: Result<Vec<Result<VAttr, FsError>>, FsError>)
        ensures
            sent_in_batches(self.link(), slice_views(paths@), attrs_view(r)),
    {
        let ghost all_paths = slice_views(paths@);
        let mut all: Vec<Result<VAttr, FsError>> = Vec::new();
        let ghost mut responses: Seq<Result<VfsResponse, FsError>> = Seq::empty();
        let mut start: usize = 0;
        let ghost mut k: int = 0;
        while start < paths.len()
            invariant
                all_paths == slice_views(paths@),
                all_paths.len() == paths@.len(),
                0 <= k,
                responses.len() == k,
                start == (if k * MAX_BATCH_PATHS < paths@.len() {
                    k * MAX_BATCH_PATHS
                } else {
                    paths@.len() as int
                }),
                k > 0 ==> (k - 1) * MAX_BATCH_PATHS < paths@.len(),
                collected(all_paths, responses) == Ok::<Seq<Result<VAttr, FsError>>, FsError>(
                    all@,
                ),
                k > 0 ==> collected(all_paths, responses.drop_last()) is Ok,
                forall|j: int|
                    0 <= j < k ==> called(
                        self.link(),
                        RequestV::GetAttrMany { paths: batch(all_paths, j) },
                        #[trigger] responses[j],
                    ),
            decreases paths@.len() - start,
        {
            let end: usize = if paths.len() - start > MAX_BATCH_PATHS {
                start + MAX_BATCH_PATHS
            } else {
                paths.len()
            };
            let wire = copy_paths(paths, start, end);
            assert(views(wire@) == batch(all_paths, k));
            let a = self.send(VfsRequest::GetAttrMany { paths: wire });
            assert(called(
                self.link(),
                RequestV::GetAttrMany { paths: batch(all_paths, k) },
                a,
            ));
            let ghost more = responses.push(a);
            assert(more.drop_last() =~= responses);
            match decode_attrs(a, end - start) {
                Err(e) => {
                    let failed: Result<Vec<Result<VAttr, FsError>>, FsError> = Err(e);
                    proof {
                        assert(collected(all_paths, more) == attrs_view(failed));
                        assert(more.len() <= batch_count(all_paths)) by (nonlinear_arith)
                            requires
                                more.len() == k + 1,
                                k * MAX_BATCH_PATHS < all_paths.len(),
                                batch_count(all_paths) == (all_paths.len() + MAX_BATCH_PATHS - 1)
                                    / (MAX_BATCH_PATHS as int),
                                MAX_BATCH_PATHS == 4096,
                        ;
                        assert(sent_in_batches(self.link(), all_paths, attrs_view(failed)));
                    }
                    return failed;
                },
                Ok(part) => {
                    append_attrs(&mut all, part);
                },
            }
            proof {
                responses = more;
                k = k + 1;
            }
            start = end;
        }
        let r: Result<Vec<Result<VAttr, FsError>>, FsError> = Ok(all);
        proof {
            assert(k == batch_count(all_paths)) by (nonlinear_arith)
                requires
                    0 <= k,
                    k * MAX_BATCH_PATHS >= all_paths.len(),
                    k > 0 ==> (k - 1) * MAX_BATCH_PATHS < all_paths.len(),
                    batch_count(all_paths) == (all_paths.len() + MAX_BATCH_PATHS - 1) / (
                    MAX_BATCH_PATHS as int),
                    MAX_BATCH_PATHS == 4096,
            ;
            assert(sent_in_batches(self.link(), all_paths, attrs_view(r)));
        }
        r
    }

    fn readdir(&self, path: &[u8]) -> (r: Result<Vec<VDirEntry>, FsError>)
        ensures
            exists|a: Result<VfsResponse, FsError>| #[trigger]
                called(self.link(), RequestV::ReadDir { path: path@ }, a) && entries_view(r)
                    == dir_reply(answer_view(a)),
    {
        let a = self.send(VfsRequest::ReadDir { path: copy_bytes(path) });
        decode_dir(a)
    }

    fn read(&self, path: &[u8], offset: u64, size: u32) -> (r: Result<Vec<u8>, FsError>)
        ensures
            exists|a: Result<VfsResponse, FsError>| #[trigger]
                called(
                    self.link(),
                    RequestV::Read { path: path@, offset, size: clamped_size(size) },
                    a,
                ) && bytes_of(r) == data_reply(answer_view(a), clamped_size(size)),
    {
        match clamp_io_size(size) {
            Err(e) => Err(e),
            Ok(size) => {
                let a = self.send(VfsRequest::Read { path: copy_bytes(path), offset, size });
                decode_data(a, size)
            },
        }
    }

    fn write(&self, path: &[u8], offset: u64, data: &[u8]) -> (r: Result<usize, FsError>)
        ensures
            if data@.len() > MAX_IO_SIZE {
                r == Err::<usize, FsError>(FsError::Os(LINUX_EINVAL))
            } else {
                exists|a: Result<VfsResponse, FsError>| #[trigger]
                    called(
                        self.link(),
                        RequestV::Write { path: path@, offset, data: data@ },
                        a,
                    ) && r == count_reply(answer_view(a), data@.len())
            },
    {
        if data.len() > MAX_IO_SIZE as usize {
            return Err(einval());
        }
        let a = self.send(
            VfsRequest::Write { path: copy_bytes(path), offset, data: copy_bytes(data) },
        );
        decode_count(a, data.len())
    }

    fn create(&self, path: &[u8], attr: &VAttr) -> (r: Result<VAttr, FsError>)
        ensures
            exists|a: Result<VfsResponse, FsError>| #[trigger]
                called(
                    self.link(),
                    RequestV::Create { path: path@, attr: attr_wire(*attr) },
                    a,
                ) && r == attr_reply(answer_view(a)),
    {
        let a = self.send(
            VfsRequest::Create { path: copy_bytes(path), attr: VAttrWire::from(attr) },
        );
        decode_attr(a)
    }

    fn mkdir(&self, path: &[u8], mode: u32) -> (r: Result<VAttr, FsError>)
        ensures
            exists|a: Result<VfsResponse, FsError>| #[trigger]
                called(self.link(), RequestV::Mkdir { path: path@, mode }, a) && r == attr_reply(
                    answer_view(a),
                ),
    {
        let a = self.send(VfsRequest::Mkdir { path: copy_bytes(path), mode });
        decode_attr(a)
    }

    fn remove(&self, path: &[u8]) -> (r: Result<(), FsError>)
        ensures
            exists|a: Result<VfsResponse, FsError>| #[trigger]
                called(self.link(), RequestV::Remove { path: path@ }, a) && r == done_reply(
                    answer_view(a),
                ),
    {
        let a = self.send(VfsRequest::Remove { path: copy_bytes(path) });
        decode_done(a)
    }

    fn rmdir(&self, path: &[u8]) -> (r: Result<(), FsError>)
        ensures
            exists|a: Result<VfsResponse, FsError>| #[trigger]
                called(self.link(), RequestV::Remove { path: path@ }, a) && r == done_reply(
                    answer_view(a),
                ),
    {
        // The server routes the removal of a directory through its own rmdir.
        let a = self.send(VfsRequest::Remove { path: copy_bytes(path) });
        decode_done(a)
    }

    fn rename(&self, from: &[u8], to: &[u8]) -> (r: Result<(), FsError>)
        ensures
            exists|a: Result<VfsResponse, FsError>| #[trigger]
                called(
                    self.link(),
                    RequestV::Rename { from: from@, to: to@, flags: 0 },
                    a,
                ) && r == done_reply(answer_view(a)),
    {
        let a = self.send(
            VfsRequest::Rename { from: copy_bytes(from), to: copy_bytes(to), flags: 0 },
        );
        decode_done(a)
    }

    fn rename_with_flags(&self, from: &[u8], to: &[u8], flags: u32) -> (r: Result<(), FsError>)
        ensures
            exists|a: Result<VfsResponse, FsError>| #[trigger]
                called(
                    self.link(),
                    RequestV::Rename { from: from@, to: to@, flags },
                    a,
                ) && r == done_reply(answer_view(a)),
    {
        let a = self.send(
            VfsRequest::Rename { from: copy_bytes(from), to: copy_bytes(to), flags },
        );
        decode_done(a)
    }

    fn setattr(&self, path: &[u8], attr: &VAttr, valid: u32) -> (r: Result<VAttr, FsError>)
        ensures
            exists|a: Result<VfsResponse, FsError>| #[trigger]
                called(
                    self.link(),
                    RequestV::SetAttr { path: path@, attr: attr_wire(*attr), valid },
                    a,
                ) && r == attr_reply(answer_view(a)),
    {
        let a = self.send(
            VfsRequest::SetAttr { path: copy_bytes(path), attr: VAttrWire::from(attr), valid },
        );
        decode_attr(a)
    }

    fn symlink(&self, path: &[u8], target: &[u8]) -> (r: Result<VAttr, FsError>)
        ensures
            exists|a: Result<VfsResponse, FsError>| #[trigger]
                called(
                    self.link(),
                    RequestV::Symlink { path: path@, target: target@ },
                    a,
                ) && r == attr_reply(answer_view(a)),
    {
        let a = self.send(
            VfsRequest::Symlink { path: copy_bytes(path), target: copy_bytes(target) },
        );
        decode_attr(a)
    }

    fn readlink(&self, path: &[u8]) -> (r: Result<Vec<u8>, FsError>)
        ensures
            exists|a: Result<VfsResponse, FsError>| #[trigger]
                called(self.link(), RequestV::ReadLink { path: path@ }, a) && bytes_of(r)
                    == bytes_reply(answer_view(a)),
    {
        let a = self.send(VfsRequest::ReadLink { path: copy_bytes(path) });
        decode_bytes(a)
    }

    fn setxattr(&self, path: &[u8], name: &[u8], value: &[u8], flags: u32) -> (r: Result<
        (),
        FsError,
    >)
        ensures
            exists|a: Result<VfsResponse, FsError>| #[trigger]
                called(
                    self.link(),
                    RequestV::SetXattr { path: path@, name: name@, value: value@, flags },
                    a,
                ) && r == done_reply(answer_view(a)),
    {
        let a = self.send(
            VfsRequest::SetXattr {
                path: copy_bytes(path),
                name: copy_bytes(name),
                value: copy_bytes(value),
                flags,
            },
        );
        decode_done(a)
    }

    fn getxattr(&self, path: &[u8], name: &[u8]) -> (r: Result<Vec<u8>, FsError>)
        ensures
            exists|a: Result<VfsResponse, FsError>| #[trigger]
                called(self.link(), RequestV::GetXattr { path: path@, name: name@ }, a)
                    && bytes_of(r) == bytes_reply(answer_view(a)),
    {
        let a = self.send(
            VfsRequest::GetXattr { path: copy_bytes(path), name: copy_bytes(name) },
        );
        decode_bytes(a)
    }

    fn listxattr(&self, path: &[u8]) -> (r: Result<Vec<Vec<u8>>, FsError>)
        ensures
            exists|a: Result<VfsResponse, FsError>| #[trigger]
                called(self.link(), RequestV::ListXattr { path: path@ }, a) && names_of(r)
                    == names_reply(answer_view(a)),
    {
        let a = self.send(VfsRequest::ListXattr { path: copy_bytes(path) });
        decode_names(a)
    }

    fn removexattr(&self, path: &[u8], name: &[u8]) -> (r: Result<(), FsError>)
        ensures
            exists|a: Result<VfsResponse, FsError>| #[trigger]
                called(self.link(), RequestV::RemoveXattr { path: path@, name: name@ }, a) && r
                    == done_reply(answer_view(a)),
    {
        let a = self.send(
            VfsRequest::RemoveXattr { path: copy_bytes(path), name: copy_bytes(name) },
        );
        decode_done(a)
    }

    fn flush(&self, path: &[u8]) -> (r: Result<(), FsError>)
        ensures
            exists|a: Result<VfsResponse, FsError>| #[trigger]
                called(self.link(), RequestV::Flush { path: path@ }, a) && r == done_reply(
                    answer_view(a),
                ),
    {
        let a = self.send(VfsRequest::Flush { path: copy_bytes(path) });
        decode_done(a)
    }

    fn fsync(&self, path: &[u8], datasync: bool) -> (r: Result<(), FsError>)
        ensures
            exists|a: Result<VfsResponse, FsError>| #[trigger]
                called(self.link(), RequestV::Fsync { path: path@, datasync }, a) && r
                    == done_reply(answer_view(a)),
    {
        let a = self.send(VfsRequest::Fsync { path: copy_bytes(path), datasync });
        decode_done(a)
    }

    fn fsyncdir(&self, path: &[u8]) -> (r: Result<(), FsError>)
        ensures
            exists|a: Result<VfsResponse, FsError>| #[trigger]
                called(self.link(), RequestV::FsyncDir { path: path@ }, a) && r == done_reply(
                    answer_view(a),
                ),
    {
        let a = self.send(VfsRequest::FsyncDir { path: copy_bytes(path) });
        decode_done(a)
    }

    fn statfs(&self) -> (r: Result<StatVfs64, FsError>)
        ensures
            exists|a: Result<VfsResponse, FsError>| #[trigger]
                called(self.link(), RequestV::StatFs, a) && r == statfs_reply(answer_view(a)),
    {
        let a = self.send(VfsRequest::StatFs);
        decode_statfs(a)
    }
}

} // verus!
