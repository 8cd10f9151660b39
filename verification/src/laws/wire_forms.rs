//! What crosses the wire: the forms of values, the bytes of frames, and the limits.

use super::naming::{lemma_readdir_name, lemma_target_fault, target_fault};
use super::xattrs::{attribute_fault, attribute_name, lemma_attribute_name};
use super::{bytes_in, read_is, write_is};
use crate::abi::StatVfs64;
use crate::bytes::views;
use crate::error::{DataFault, FsError};
use crate::name_validation::{path_check, symlink_target_check, xattr_name_check};
use crate::path_fs::{entry_views, NodeKind, PathFs, VAttr, VDirEntry};
use crate::platform::provider_errno_to_wire;
use crate::rpc::client::{
    decode_attr, decode_attrs, decode_bytes, decode_count, decode_data, decode_dir, decode_done,
    decode_names, decode_statfs, listing_of_wire,
};
use crate::rpc::dispatch::{dispatch, paths_check, validate_request_paths};
use crate::rpc::framing::{
    frame, hello, hello_magic, parsed_hello, read_frame, write_frame, write_hello,
};
use crate::rpc::limits::{clamp_io_size, clamp_write_len};
use crate::rpc::messages::{
    attr_wire, decode_error_errno, entry_wire_views, kind_byte, kinds_round_trip_over_the_wire,
    node_kind_from_u8, node_kind_to_u8, statfs_wire, total_len, validate_request_limits,
    DirEntryWireV, RequestV, ResponseV, StatFsWire, VAttrResult, VAttrWire, VDirEntryWire,
    VfsRequest, VfsResponse,
};
use crate::rpc::transport::SocketTransport;
use crate::time::{
    instants_are_their_nanos, time_to_wire, timespec_nanos, wire_time, wire_to_time, VTime,
};
use crate::wire::{be32, be64, from_be32, from_be64};
use vstd::prelude::*;

verus! {

/// The number that stands for a kind of node on the wire.
pub open spec fn kind_number(kind: NodeKind) -> int {
    match kind {
        NodeKind::File => 0,
        NodeKind::Dir => 1,
        NodeKind::Symlink => 2,
        NodeKind::Char => 3,
        NodeKind::Block => 4,
        NodeKind::Fifo => 5,
        NodeKind::Socket => 6,
    }
}

/// Every kind has its number, and every other number is refused.
pub proof fn kinds_have_their_numbers(
    kind: NodeKind,
    sent: u8,
    v: u8,
    r: Result<NodeKind, FsError>,
)
    requires
        call_ensures(node_kind_to_u8, (kind,), sent),
        call_ensures(node_kind_from_u8, (v,), r),
    ensures
        sent == kind_number(kind),
        r matches Ok(k) ==> kind_number(k) == v,
        r is Err <==> v > 6,
        r is Err ==> r == Err::<NodeKind, FsError>(
            FsError::InvalidData(DataFault::UnknownNodeKind),
        ),
{
    kinds_round_trip_over_the_wire(kind, v);
    if let Ok(k) = r {
        assert(kind_byte(k) == v);
    }
}

/// An instant is told by its whole seconds, rounded down, and the nanoseconds past them,
/// and read back from them.
pub proof fn instants_are_told_by_seconds(
    t: VTime,
    told: (i64, u32),
    w: (i64, u32),
    r: VTime,
)
    requires
        call_ensures(time_to_wire, (t,), told),
        call_ensures(wire_to_time, (w,), r),
    ensures
        told.1 < 1_000_000_000,
        told.0 * 1_000_000_000 + told.1 == t.nanos(),
        r.nanos() == w.0 * 1_000_000_000 + (if w.1 < 1_000_000_000 {
            w.1 as int
        } else {
            999_999_999
        }),
{
    instants_are_their_nanos(
        t,
        timespec_nanos(w.0, w.1 as i64),
    );
}

/// Whether a timestamp on the wire tells `t`.
pub open spec fn stamp_tells(t: Option<VTime>, w: Option<(i64, u32)>) -> bool {
    match (t, w) {
        (None, None) => true,
        (Some(t), Some((sec, nsec))) => t.well_formed() ==> nsec < 1_000_000_000 && sec
            * 1_000_000_000 + nsec == t.nanos(),
        _ => false,
    }
}

/// Whether the wire form of attributes tells them, field by field.
pub open spec fn attrs_tell(a: VAttr, w: VAttrWire) -> bool {
    &&& w.kind == kind_number(a.kind)
    &&& w.mode == a.mode
    &&& w.size == a.size
    &&& w.uid == a.uid
    &&& w.gid == a.gid
    &&& w.nlink == a.nlink
    &&& w.rdev == a.rdev
    &&& stamp_tells(a.atime, w.atime)
    &&& stamp_tells(a.mtime, w.mtime)
    &&& stamp_tells(a.ctime, w.ctime)
}

/// A well-formed instant is told exactly.
proof fn lemma_stamp(t: Option<VTime>)
    ensures
        stamp_tells(
            t,
            match t {
                Some(t) => Some(wire_time(t)),
                None => None,
            },
        ),
{
    if let Some(t) = t {
        if t.well_formed() {
            instants_are_their_nanos(t, 0);
        }
    }
}

/// The wire form of attributes tells them, field by field, and is read back so.
pub proof fn attributes_are_told_field_by_field(
    a: VAttr,
    w: VAttrWire,
    back: Result<VAttr, FsError>,
)
    requires
        call_ensures(VAttrWire::into_vattr, (w,), back),
    ensures
        attrs_tell(a, attr_wire(a)),
        back is Ok <==> w.kind <= 6,
        back matches Ok(b) ==> {
            &&& kind_number(b.kind) == w.kind
            &&& b.mode == w.mode
            &&& b.size == w.size
            &&& b.uid == w.uid
            &&& b.gid == w.gid
            &&& b.nlink == w.nlink
            &&& b.rdev == w.rdev
            &&& b.atime is Some <==> w.atime is Some
            &&& b.mtime is Some <==> w.mtime is Some
            &&& b.ctime is Some <==> w.ctime is Some
        },
{
    kinds_round_trip_over_the_wire(a.kind, w.kind);
    lemma_stamp(a.atime);
    lemma_stamp(a.mtime);
    lemma_stamp(a.ctime);
    if let Ok(b) = back {
        assert(kind_byte(b.kind) == w.kind);
    }
}

/// A directory entry is told by its name and its kind.
pub proof fn entries_are_told_by_name_and_kind(
    e: &VDirEntry,
    told: VDirEntryWire,
    w: VDirEntryWire,
    back: Result<VDirEntry, FsError>,
)
    requires
        call_ensures(VDirEntryWire::from_entry, (e,), told),
        call_ensures(VDirEntryWire::into_entry, (w,), back),
    ensures
        told.name@ == e.name@,
        told.kind == kind_number(e.kind),
        back is Ok <==> w.kind <= 6,
        back matches Ok(b) ==> b.name@ == w.name@ && kind_number(b.kind) == w.kind,
{
    kinds_round_trip_over_the_wire(e.kind, w.kind);
    assert(told@.name == e@.name && told@.kind == kind_byte(e@.kind));
    if let Ok(b) = back {
        assert(kind_byte(b@.kind) == w.kind);
    }
}

/// Statistics are told field by field.
pub proof fn statistics_are_told_field_by_field(s: StatVfs64, w: StatFsWire, back: StatVfs64)
    requires
        call_ensures(StatFsWire::into_statvfs, (w,), back),
    ensures
        statfs_wire(s).bsize == s.f_bsize && back.f_bsize == w.bsize,
        statfs_wire(s).frsize == s.f_frsize && back.f_frsize == w.frsize,
        statfs_wire(s).blocks == s.f_blocks && back.f_blocks == w.blocks,
        statfs_wire(s).bfree == s.f_bfree && back.f_bfree == w.bfree,
        statfs_wire(s).bavail == s.f_bavail && back.f_bavail == w.bavail,
        statfs_wire(s).files == s.f_files && back.f_files == w.files,
        statfs_wire(s).ffree == s.f_ffree && back.f_ffree == w.ffree,
        statfs_wire(s).namemax == s.f_namemax && back.f_namemax == w.namemax,
{
}

/// The number that bytes spell, the highest one first.
pub open spec fn spells(bytes: Seq<u8>) -> int
    decreases bytes.len(),
{
    if bytes.len() == 0 {
        0
    } else {
        spells(bytes.drop_last()) * 256 + bytes.last()
    }
}

/// Four bytes spell a 32-bit number.
proof fn lemma_spells32(n: u32)
    ensures
        be32(n).len() == 4,
        spells(be32(n)) == n,
{
    let s = be32(n);
    assert(((((n >> 24) as u8) * 256 + ((n >> 16) as u8)) * 256 + ((n >> 8) as u8)) * 256 + (
    n as u8) == n) by (bit_vector);
    reveal_with_fuel(spells, 5);
    assert(s.drop_last() =~= s.take(3));
    assert(s.take(3).drop_last() =~= s.take(2));
    assert(s.take(2).drop_last() =~= s.take(1));
    assert(s.take(1).drop_last() =~= Seq::<u8>::empty());
}

/// Eight bytes spell a 64-bit number.
proof fn lemma_spells64(n: u64)
    ensures
        be64(n).len() == 8,
        spells(be64(n)) == n,
{
    let s = be64(n);
    let hi = (n >> 32) as u32;
    let lo = n as u32;
    assert(hi * 0x1_0000_0000 + lo == n && (hi >> 24) as u8 == (n >> 56) as u8 && (hi >> 16) as u8
        == (n >> 48) as u8 && (hi >> 8) as u8 == (n >> 40) as u8 && hi as u8 == (n >> 32) as u8 && (
    lo >> 24) as u8 == (n >> 24) as u8 && (lo >> 16) as u8 == (n >> 16) as u8 && (lo >> 8) as u8
        == (n >> 8) as u8 && lo as u8 == n as u8) by (bit_vector)
        requires
            hi == (n >> 32) as u32,
            lo == n as u32,
    ;
    lemma_spells32(hi);
    lemma_spells32(lo);
    assert(s =~= be32(hi) + be32(lo));
    lemma_spells_append(be32(hi), be32(lo));
}

/// Four more bytes make the number that many times larger.
proof fn lemma_spells_append(a: Seq<u8>, b: Seq<u8>)
    requires
        b.len() == 4,
    ensures
        spells(a + b) == spells(a) * 0x1_0000_0000 + spells(b),
{
    reveal_with_fuel(spells, 5);
    let s = a + b;
    assert(s.drop_last() =~= a + b.take(3));
    assert((a + b.take(3)).drop_last() =~= a + b.take(2));
    assert((a + b.take(2)).drop_last() =~= a + b.take(1));
    assert((a + b.take(1)).drop_last() =~= a);
    assert(b.drop_last() =~= b.take(3));
    assert(b.take(3).drop_last() =~= b.take(2));
    assert(b.take(2).drop_last() =~= b.take(1));
    assert(b.take(1).drop_last() =~= Seq::<u8>::empty());
}

/// Whether bytes are a frame: four that spell the length of the payload, eight that spell
/// the id, and the payload.
pub open spec fn is_frame(bytes: Seq<u8>, id: u64, payload: Seq<u8>) -> bool {
    &&& bytes.len() == 12 + payload.len()
    &&& spells(bytes.take(4)) == payload.len()
    &&& spells(bytes.subrange(4, 12)) == id
    &&& bytes.skip(12) == payload
}

/// The bytes of a frame.
pub proof fn lemma_frame(id: u64, payload: Seq<u8>)
    requires
        payload.len() <= u32::MAX,
    ensures
        is_frame(frame(id, payload), id, payload),
{
    let f = frame(id, payload);
    lemma_spells32(payload.len() as u32);
    lemma_spells64(id);
    assert(f.take(4) =~= be32(payload.len() as u32));
    assert(f.subrange(4, 12) =~= be64(id));
    assert(f.skip(12) =~= payload);
}

/// A message is written as a frame of its id, up to 8 MiB. Nothing is written of a larger
/// one.
pub proof fn messages_are_written_as_frames(
    before: Vec<u8>,
    id: u64,
    payload: &[u8],
    after: Vec<u8>,
    r: Result<(), FsError>,
)
    requires
        exists|w: &mut Vec<u8>|
            *w == before && *final(w) == after && #[trigger] call_ensures(
                write_frame,
                (w, id, payload),
                r,
            ),
    ensures
        payload@.len() <= 0x80_0000 ==> r is Ok && after@.len() >= before@.len()
            && after@.take(before@.len() as int) == before@ && is_frame(
            after@.skip(before@.len() as int),
            id,
            payload@,
        ),
        payload@.len() > 0x80_0000 ==> r == Err::<(), FsError>(FsError::InvalidInput) && after@
            == before@,
{
    if payload@.len() <= 0x80_0000 {
        lemma_frame(id, payload@);
        assert(after@.take(before@.len() as int) =~= before@);
        assert(after@.skip(before@.len() as int) =~= frame(id, payload@));
    }
}

/// The hello is `MVFS` and the version, which is 1.
pub proof fn the_hello_names_the_protocol(
    before: Vec<u8>,
    after: Vec<u8>,
    r: Result<(), FsError>,
)
    requires
        exists|w: &mut Vec<u8>|
            *w == before && *final(w) == after && #[trigger] call_ensures(write_hello, (w,), r),
    ensures
        r is Ok,
        after@ == before@ + hello_bytes(),
{
    lemma_hello(Seq::empty());
}

/// The eight bytes of a hello: `MVFS` and version 1.
pub open spec fn hello_bytes() -> Seq<u8> {
    seq![77u8, 86u8, 70u8, 83u8, 0u8, 0u8, 0u8, 1u8]
}

/// What is wrong with the hello of a peer: that it is too short, of another protocol, or of
/// another version.
pub open spec fn hello_fault(s: Seq<u8>) -> FsError {
    if s.len() < 8 {
        FsError::UnexpectedEof
    } else if s.take(4) != seq![77u8, 86u8, 70u8, 83u8] {
        FsError::InvalidData(DataFault::BadMagic)
    } else {
        FsError::InvalidData(DataFault::UnsupportedVersion(spells(s.subrange(4, 8)) as u32))
    }
}

/// The hello of a peer, by its bytes.
pub proof fn lemma_hello(s: Seq<u8>)
    ensures
        parsed_hello(s) is Ok <==> s.len() >= 8 && s.take(8) == hello_bytes(),
        parsed_hello(s) matches Ok(version) ==> version == 1,
        parsed_hello(s) matches Err(e) ==> e == hello_fault(s),
        hello() == hello_bytes(),
{
    assert((1u32 >> 24) as u8 == 0 && (1u32 >> 16) as u8 == 0 && (1u32 >> 8) as u8 == 0 && 1u32 as u8
        == 1) by (bit_vector);
    assert(hello() =~= hello_bytes());
    assert(hello_magic() =~= seq![77u8, 86u8, 70u8, 83u8]);
    if s.len() >= 8 {
        let v = s.subrange(4, 8);
        lemma_reads32(s.skip(4));
        assert(s.skip(4).take(4) =~= v);
        let want = hello_bytes();
        if s.take(8) == want {
            assert(s.take(4) =~= want.take(4));
            assert(want.take(4) =~= hello_magic());
            assert(v =~= want.subrange(4, 8)) by {
                assert(v =~= s.take(8).subrange(4, 8));
            }
            lemma_spells_four(v);
        }
        if parsed_hello(s) is Ok {
            lemma_spells_four(v);
            assert(s.take(8) =~= s.take(4) + v);
            assert(v =~= seq![0u8, 0u8, 0u8, 1u8]);
            assert(s.take(8) =~= want);
        }
    }
}

/// A hello is accepted exactly where it is `MVFS` and version 1; eight bytes are read. Any
/// other is refused: as too short, as another protocol, or as another version.
pub proof fn only_this_protocol_is_accepted(
    peer: &[u8],
    r: Result<SocketTransport, FsError>,
)
    requires
        call_ensures(SocketTransport::connect, (peer,), r),
    ensures
        r is Ok <==> peer@.len() >= 8 && peer@.take(8) == hello_bytes(),
        r matches Ok(t) ==> t.version() == 1 && t.next() == 1,
        r is Err ==> r == Err::<SocketTransport, FsError>(hello_fault(peer@)),
{
    lemma_hello(peer@);
}

/// What four bytes spell.
proof fn lemma_spells_four(v: Seq<u8>)
    requires
        v.len() == 4,
    ensures
        spells(v) == v[0] * 0x100_0000 + v[1] * 0x1_0000 + v[2] * 0x100 + v[3],
{
    reveal_with_fuel(spells, 5);
    assert(v.drop_last() =~= v.take(3));
    assert(v.take(3).drop_last() =~= v.take(2));
    assert(v.take(2).drop_last() =~= v.take(1));
    assert(v.take(1).drop_last() =~= Seq::<u8>::empty());
}

/// A 32-bit number is read as the one that its bytes spell.
proof fn lemma_reads32(s: Seq<u8>)
    requires
        s.len() >= 4,
    ensures
        from_be32(s) == spells(s.take(4)),
{
    let (a, b, c, d) = (s[0], s[1], s[2], s[3]);
    assert(((a as u32) << 24) | ((b as u32) << 16) | ((c as u32) << 8) | (d as u32) == a
        * 0x100_0000 + b * 0x1_0000 + c * 0x100 + d) by (bit_vector);
    lemma_spells_four(s.take(4));
}

/// A 64-bit number is read as the one that its bytes spell.
proof fn lemma_reads64(s: Seq<u8>)
    requires
        s.len() >= 8,
    ensures
        from_be64(s) == spells(s.take(8)),
{
    let (a, b, c, d) = (s[0], s[1], s[2], s[3]);
    let (e, f, g, h) = (s[4], s[5], s[6], s[7]);
    assert(((a as u64) << 56) | ((b as u64) << 48) | ((c as u64) << 40) | ((d as u64) << 32) | ((
    e as u64) << 24) | ((f as u64) << 16) | ((g as u64) << 8) | (h as u64) == (a * 0x100_0000 + b
        * 0x1_0000 + c * 0x100 + d) * 0x1_0000_0000 + (e * 0x100_0000 + f * 0x1_0000 + g * 0x100
        + h)) by (bit_vector);
    lemma_spells_four(s.take(4));
    lemma_spells_four(s.subrange(4, 8));
    lemma_spells_append(s.take(4), s.subrange(4, 8));
    assert(s.take(8) =~= s.take(4) + s.subrange(4, 8));
}

/// Reading a message takes one frame from the front, with its id and payload, and leaves
/// what follows. Input that ends within the frame is an early end, and a length of more than
/// 8 MiB is refused.
pub proof fn frames_are_read_as_written(
    before: &[u8],
    after: &[u8],
    r: Result<(u64, Vec<u8>), FsError>,
)
    requires
        exists|w: &mut &[u8]|
            *w == before && *final(w) == after && #[trigger] call_ensures(read_frame, (w,), r),
    ensures
        r matches Ok((id, payload)) ==> before@.len() >= 12 + payload@.len() && payload@.len()
            <= 0x80_0000 && is_frame(before@.take((12 + payload@.len()) as int), id, payload@) && after@
            == before@.skip((12 + payload@.len()) as int),
        before@.len() < 12 ==> r == Err::<(u64, Vec<u8>), FsError>(FsError::UnexpectedEof),
        before@.len() >= 12 && spells(before@.take(4)) > 0x80_0000 ==> r == Err::<
            (u64, Vec<u8>),
            FsError,
        >(FsError::InvalidData(DataFault::FrameTooLarge)),
        before@.len() >= 12 && spells(before@.take(4)) <= 0x80_0000 ==> (r is Ok
            <==> before@.len() >= 12 + spells(before@.take(4))),
        before@.len() >= 12 && spells(before@.take(4)) <= 0x80_0000 && r is Err ==> r == Err::<
            (u64, Vec<u8>),
            FsError,
        >(FsError::UnexpectedEof),
{
    let s = before@;
    if s.len() >= 12 {
        lemma_reads32(s);
        lemma_reads64(s.skip(4));
        assert(s.skip(4).take(8) =~= s.subrange(4, 12));
        if let Ok((id, payload)) = r {
            let f = s.take((12 + payload@.len()) as int);
            assert(payload@.len() == spells(s.take(4)));
            assert(f.take(4) =~= s.take(4));
            assert(f.subrange(4, 12) =~= s.subrange(4, 12));
            assert(f.skip(12) =~= payload@);
        }
    }
}

/// The paths in a request.
pub open spec fn paths_in(req: RequestV) -> Seq<Seq<u8>> {
    match req {
        RequestV::GetAttr { path } => seq![path],
        RequestV::GetAttrMany { paths } => paths,
        RequestV::ReadDir { path } => seq![path],
        RequestV::ReadLink { path } => seq![path],
        RequestV::Read { path, .. } => seq![path],
        RequestV::Write { path, .. } => seq![path],
        RequestV::Create { path, .. } => seq![path],
        RequestV::Mkdir { path, .. } => seq![path],
        RequestV::Remove { path } => seq![path],
        RequestV::Rename { from, to, .. } => seq![from, to],
        RequestV::SetAttr { path, .. } => seq![path],
        RequestV::Symlink { path, .. } => seq![path],
        RequestV::SetXattr { path, .. } => seq![path],
        RequestV::GetXattr { path, .. } => seq![path],
        RequestV::ListXattr { path } => seq![path],
        RequestV::RemoveXattr { path, .. } => seq![path],
        RequestV::Flush { path } => seq![path],
        RequestV::Fsync { path, .. } => seq![path],
        RequestV::FsyncDir { path } => seq![path],
        RequestV::StatFs => Seq::empty(),
    }
}

/// The name of an attribute in a request, if there is one.
pub open spec fn attribute_in(req: RequestV) -> Option<Seq<u8>> {
    match req {
        RequestV::SetXattr { name, .. } => Some(name),
        RequestV::GetXattr { name, .. } => Some(name),
        RequestV::RemoveXattr { name, .. } => Some(name),
        _ => None,
    }
}

/// A list of paths is accepted exactly where each path is.
pub proof fn lemma_paths(paths: Seq<Seq<u8>>)
    ensures
        paths_check(paths) is Ok <==> forall|i: int|
            0 <= i < paths.len() ==> path_check(#[trigger] paths[i]) is Ok,
    decreases paths.len(),
{
    if paths.len() > 0 {
        let front = paths.drop_last();
        lemma_paths(front);
        if paths_check(paths) is Ok {
            assert forall|i: int| 0 <= i < paths.len() implies path_check(
                #[trigger] paths[i],
            ) is Ok by {
                if i < front.len() {
                    assert(front[i] == paths[i]);
                }
            }
        }
        if forall|i: int| 0 <= i < paths.len() ==> path_check(#[trigger] paths[i]) is Ok {
            assert forall|i: int| 0 <= i < front.len() implies path_check(
                #[trigger] front[i],
            ) is Ok by {
                assert(front[i] == paths[i]);
            }
            assert(path_check(paths[paths.len() - 1]) is Ok);
        }
    }
}

/// Whether `i` is the first path of a request that is not valid.
pub open spec fn first_bad_path(req: RequestV, i: int) -> bool {
    &&& 0 <= i < paths_in(req).len()
    &&& path_check(paths_in(req)[i]) is Err
    &&& forall|j: int| 0 <= j < i ==> path_check(#[trigger] paths_in(req)[j]) is Ok
}

/// A list of paths is refused for the first that is not valid.
proof fn lemma_first_bad(paths: Seq<Seq<u8>>, i: int)
    requires
        0 <= i < paths.len(),
        path_check(paths[i]) is Err,
        forall|j: int| 0 <= j < i ==> path_check(#[trigger] paths[j]) is Ok,
    ensures
        paths_check(paths) == Err::<(), FsError>(path_check(paths[i])->Err_0),
    decreases paths.len(),
{
    let front = paths.drop_last();
    assert forall|j: int| 0 <= j < i implies path_check(#[trigger] front[j]) is Ok by {
        assert(front[j] == paths[j]);
    }
    if i < front.len() {
        lemma_first_bad(front, i);
    } else {
        lemma_paths(front);
    }
}

/// A request is served only where every path in it is valid, every attribute name, and the
/// target of every link; and where they are, it is not refused on their account.
pub proof fn requests_are_checked_as_a_whole(req: &VfsRequest, r: Result<(), FsError>)
    requires
        call_ensures(validate_request_paths, (req,), r),
    ensures
        r is Ok <==> {
            &&& forall|i: int|
                0 <= i < paths_in(req@).len() ==> path_check(#[trigger] paths_in(req@)[i]) is Ok
            &&& attribute_in(req@) matches Some(name) ==> attribute_name(name)
            &&& req@ matches RequestV::Symlink { target, .. } ==> symlink_target_check(target) is Ok
        },
        forall|i: int|
            first_bad_path(req@, i) ==> r == Err::<(), FsError>(
                path_check(#[trigger] paths_in(req@)[i])->Err_0,
            ),
        (forall|i: int|
            0 <= i < paths_in(req@).len() ==> path_check(#[trigger] paths_in(req@)[i]) is Ok) ==> (
        match req@ {
            RequestV::Symlink { target, .. } => target_fault(target) != 0 ==> r == Err::<
                (),
                FsError,
            >(FsError::Os(target_fault(target))),
            _ => attribute_in(req@) matches Some(name) ==> !attribute_name(name) ==> r == Err::<
                (),
                FsError,
            >(attribute_fault(name)),
        }),
{
    assert forall|i: int| first_bad_path(req@, i) implies r == Err::<(), FsError>(
        path_check(#[trigger] paths_in(req@)[i])->Err_0,
    ) by {
        lemma_first_bad(paths_in(req@), i);
        if paths_in(req@).len() == 2 && i == 1 {
            assert(path_check(paths_in(req@)[0]) is Ok);
        }
    }
    if let RequestV::Symlink { target, .. } = req@ {
        lemma_target_fault(target);
        assert(path_check(paths_in(req@)[0]) is Ok || path_check(paths_in(req@)[0]) is Err);
    }
    if let Some(name) = attribute_in(req@) {
        lemma_attribute_name(name);
        assert(path_check(paths_in(req@)[0]) is Ok || path_check(paths_in(req@)[0]) is Err);
    }
    let paths = paths_in(req@);
    lemma_paths(paths);
    if let Some(name) = attribute_in(req@) {
        lemma_readdir_name(name);
        if xattr_name_check(name) is Ok {
            assert forall|i: int| 0 <= i < name.len() implies name[i] != 47 && name[i] != 0 by {
                assert(name.contains(name[i]));
            }
        }
    }
    if paths.len() == 1 {
        assert(paths_check(paths.drop_last()) is Ok) by {
            assert(paths.drop_last() =~= Seq::<Seq<u8>>::empty());
        }
        assert(paths_check(paths) is Ok <==> path_check(paths[0]) is Ok);
    }
    if paths.len() == 2 {
        let front = paths.drop_last();
        assert(front.drop_last() =~= Seq::<Seq<u8>>::empty());
        assert(paths_check(front.drop_last()) is Ok);
        assert(front.last() == paths[0]);
        assert(paths_check(front) is Ok <==> path_check(paths[0]) is Ok);
    }
}

/// The bytes of all byte strings of a list.
pub open spec fn bytes_together(paths: Seq<Seq<u8>>) -> int
    decreases paths.len(),
{
    if paths.len() == 0 {
        0
    } else {
        paths[0].len() + bytes_together(paths.skip(1))
    }
}

/// The bytes of a list, counted from either end.
proof fn lemma_bytes_together(paths: Seq<Seq<u8>>)
    ensures
        total_len(paths) == bytes_together(paths),
    decreases paths.len(),
{
    if paths.len() > 0 {
        lemma_bytes_together_last(paths);
        lemma_bytes_together(paths.drop_last());
    }
}

/// The bytes of a list are those of its front and its last byte string.
proof fn lemma_bytes_together_last(paths: Seq<Seq<u8>>)
    requires
        paths.len() > 0,
    ensures
        bytes_together(paths) == bytes_together(paths.drop_last()) + paths.last().len(),
    decreases paths.len(),
{
    if paths.len() > 1 {
        lemma_bytes_together_last(paths.skip(1));
        assert(paths.skip(1).drop_last() =~= paths.drop_last().skip(1));
    } else {
        assert(paths.skip(1) =~= Seq::<Seq<u8>>::empty());
        assert(paths.drop_last() =~= Seq::<Seq<u8>>::empty());
    }
}

/// A request is too large exactly where it asks for or carries more than 128 KiB of data,
/// asks for more than 4096 paths or for paths of more than 256 KiB together, carries an
/// attribute of more than 64 KiB, or the target of a link of more than 4096 bytes.
pub proof fn large_requests_are_refused(req: &VfsRequest, r: Result<(), FsError>)
    requires
        call_ensures(validate_request_limits, (req,), r),
    ensures
        match req@ {
            RequestV::Read { size, .. } => r == (if size <= 0x2_0000 {
                Ok::<(), FsError>(())
            } else {
                Err(FsError::Os(22))
            }),
            RequestV::Write { data, .. } => r == (if data.len() <= 0x2_0000 {
                Ok::<(), FsError>(())
            } else {
                Err(FsError::Os(22))
            }),
            RequestV::GetAttrMany { paths } => r == (if paths.len() <= 4096 && bytes_together(paths)
                <= 0x4_0000 {
                Ok::<(), FsError>(())
            } else {
                Err(FsError::Os(22))
            }),
            RequestV::SetXattr { value, .. } => r == (if value.len() <= 0x1_0000 {
                Ok::<(), FsError>(())
            } else {
                Err(FsError::Os(22))
            }),
            RequestV::Symlink { target, .. } => r == (if target.len() <= 4096 {
                Ok::<(), FsError>(())
            } else {
                Err(FsError::Os(36))
            }),
            _ => r is Ok,
        },
{
    if let RequestV::GetAttrMany { paths } = req@ {
        lemma_bytes_together(paths);
    }
}

/// Reads are cut to 128 KiB, and larger writes are refused.
pub proof fn sizes_are_limited(
    size: u32,
    clamped: Result<u32, FsError>,
    len: usize,
    allowed: Result<(), FsError>,
)
    requires
        call_ensures(clamp_io_size, (size,), clamped),
        call_ensures(clamp_write_len, (len,), allowed),
    ensures
        clamped == Ok::<u32, FsError>(
            if size <= 0x2_0000 {
                size
            } else {
                0x2_0000
            },
        ),
        allowed == (if len <= 0x2_0000 {
            Ok::<(), FsError>(())
        } else {
            Err(FsError::Os(22))
        }),
{
}

/// An errno crosses the wire as it is, in both directions. An error without one is `EIO`
/// where a provider gave it, and `EINVAL` where a request could not be decoded.
pub proof fn errnos_cross_verbatim(error: FsError, sent: i32, decoding: i32)
    requires
        call_ensures(provider_errno_to_wire, (error,), sent),
        call_ensures(decode_error_errno, (&error,), decoding),
    ensures
        error matches FsError::Os(errno) ==> sent == errno && decoding == errno,
        !(error is Os) ==> sent == 5 && decoding == 22,
{
}

/// The error that a response stands for that is not of the expected shape.
pub open spec fn misfit(resp: Result<VfsResponse, FsError>) -> FsError {
    match resp {
        Err(e) => e,
        Ok(VfsResponse::Errno(errno)) => FsError::Os(errno),
        Ok(_) => FsError::Os(5),
    }
}

/// A response is taken for what it holds. One of another shape than expected is an error:
/// the errno that it carries, or else `EIO`; a failed call keeps its error.
pub proof fn responses_are_taken_for_what_they_hold(
    resp: Result<VfsResponse, FsError>,
    attr: Result<VAttr, FsError>,
    bytes: Result<Vec<u8>, FsError>,
    done: Result<(), FsError>,
    names: Result<Vec<Vec<u8>>, FsError>,
    stat: Result<StatVfs64, FsError>,
    dir: Result<Vec<VDirEntry>, FsError>,
)
    requires
        call_ensures(decode_attr, (resp,), attr),
        call_ensures(decode_bytes, (resp,), bytes),
        call_ensures(decode_done, (resp,), done),
        call_ensures(decode_names, (resp,), names),
        call_ensures(decode_statfs, (resp,), stat),
        call_ensures(decode_dir, (resp,), dir),
    ensures
        match resp {
            Ok(VfsResponse::Attr(w)) => attr is Ok <==> w.kind <= 6,
            _ => attr == Err::<VAttr, FsError>(misfit(resp)),
        },
        match resp {
            Ok(VfsResponse::Bytes(b)) => bytes_in(bytes) == Ok::<Seq<u8>, FsError>(b@),
            _ => bytes_in(bytes) == Err::<Seq<u8>, FsError>(misfit(resp)),
        },
        match resp {
            Ok(VfsResponse::Done) => done is Ok,
            _ => done == Err::<(), FsError>(misfit(resp)),
        },
        match resp {
            Ok(VfsResponse::Names(n)) => names is Ok && views(names->Ok_0@) == views(n@),
            _ => names == Err::<Vec<Vec<u8>>, FsError>(misfit(resp)),
        },
        match resp {
            Ok(VfsResponse::StatFs(w)) => stat is Ok && stat->Ok_0.f_blocks == w.blocks,
            _ => stat == Err::<StatVfs64, FsError>(misfit(resp)),
        },
        match resp {
            Ok(VfsResponse::Dir(w)) => dir is Ok ==> dir->Ok_0@.len() == w@.len(),
            _ => dir == Err::<Vec<VDirEntry>, FsError>(misfit(resp)),
        },
{
    if let Ok(VfsResponse::Attr(w)) = resp {
        kinds_round_trip_over_the_wire(NodeKind::File, w.kind);
    }
    if let Ok(VfsResponse::Dir(w)) = resp {
        lemma_listing_len(entry_wire_views(w@));
        if let Ok(entries) = dir {
            assert(entry_views(entries@).len() == entries@.len());
        }
    }
}

/// A listing has as many entries as its wire form.
proof fn lemma_listing_len(w: Seq<DirEntryWireV>)
    ensures
        listing_of_wire(w) matches Ok(entries) ==> entries.len() == w.len(),
    decreases w.len(),
{
    if w.len() > 0 {
        lemma_listing_len(w.drop_last());
    }
}

/// A reader accepts what it asked for and no more, and a writer no higher count than what
/// it sent.
pub proof fn peers_cannot_return_more_than_asked(
    data: Vec<u8>,
    size: u32,
    read: Result<Vec<u8>, FsError>,
    count: u64,
    len: usize,
    write: Result<usize, FsError>,
)
    requires
        call_ensures(
            decode_data,
            (Ok::<VfsResponse, FsError>(VfsResponse::Bytes(data)), size),
            read,
        ),
        call_ensures(
            decode_count,
            (Ok::<VfsResponse, FsError>(VfsResponse::Count(count)), len),
            write,
        ),
    ensures
        bytes_in(read) == (if data@.len() <= size {
            Ok::<Seq<u8>, FsError>(data@)
        } else {
            Err(FsError::InvalidData(DataFault::ReadTooLong))
        }),
        count <= len ==> write is Ok && write->Ok_0 == count,
        count > len ==> write == Err::<usize, FsError>(FsError::InvalidData(DataFault::WriteTooLong)),
{
}

/// The results of a batch are taken for those of its paths, in order, where there are as many
/// as paths; any other number is refused.
pub proof fn batches_must_answer_every_path(
    results: Vec<VAttrResult>,
    n: usize,
    r: Result<Vec<Result<VAttr, FsError>>, FsError>,
)
    requires
        call_ensures(
            decode_attrs,
            (Ok::<VfsResponse, FsError>(VfsResponse::AttrMany(results)), n),
            r,
        ),
    ensures
        results@.len() != n ==> r == Err::<Vec<Result<VAttr, FsError>>, FsError>(
            FsError::InvalidData(DataFault::BatchMismatch),
        ),
        results@.len() == n ==> r is Ok && r->Ok_0@.len() == n && forall|i: int|
            0 <= i < n ==> (match #[trigger] results@[i] {
                VAttrResult::Errno(errno) => r->Ok_0@[i] == Err::<VAttr, FsError>(
                    FsError::Os(errno),
                ),
                VAttrResult::Found(w) => if w.kind <= 6 {
                    r->Ok_0@[i] is Ok && r->Ok_0@[i]->Ok_0.mode == w.mode && r->Ok_0@[i]->Ok_0.size
                        == w.size && kind_number(r->Ok_0@[i]->Ok_0.kind) == w.kind
                } else {
                    r->Ok_0@[i] == Err::<VAttr, FsError>(
                        FsError::InvalidData(DataFault::UnknownNodeKind),
                    )
                },
            }),
{
    if results@.len() == n {
        assert forall|i: int| 0 <= i < n implies (match #[trigger] results@[i] {
            VAttrResult::Found(w) => if w.kind <= 6 {
                r->Ok_0@[i] is Ok && kind_number(r->Ok_0@[i]->Ok_0.kind) == w.kind
            } else {
                r->Ok_0@[i] is Err
            },
            _ => true,
        }) by {
            if let VAttrResult::Found(w) = results@[i] {
                kinds_round_trip_over_the_wire(NodeKind::File, w.kind);
                if let Ok(a) = r->Ok_0@[i] {
                    assert(kind_byte(a.kind) == w.kind);
                }
            }
        }
    }
}

/// The serving side answers a read with the data of the provider, and a provider that
/// returns more than was asked for with `EIO`.
pub proof fn reads_are_served<P: PathFs>(
    p: P,
    path: Vec<u8>,
    offset: u64,
    size: u32,
    reply: Result<Seq<u8>, FsError>,
    resp: VfsResponse,
)
    requires
        path_check(path@) is Ok,
        size <= 0x2_0000,
        read_is(p, path@, offset, size, reply),
        call_ensures(dispatch::<P>, (&p, VfsRequest::Read { path, offset, size }), resp),
    ensures
        resp@ == (match reply {
            Ok(data) => if data.len() <= size {
                ResponseV::Bytes(data)
            } else {
                ResponseV::Errno(5)
            },
            Err(FsError::Os(errno)) => ResponseV::Errno(errno),
            Err(_) => ResponseV::Errno(5),
        }),
{
}

/// The serving side answers a write with the count of the provider, and a provider that
/// counts more than was sent with `EIO`.
pub proof fn writes_are_served<P: PathFs>(
    p: P,
    path: Vec<u8>,
    offset: u64,
    data: Vec<u8>,
    reply: Result<usize, FsError>,
    resp: VfsResponse,
)
    requires
        path_check(path@) is Ok,
        data@.len() <= 0x2_0000,
        write_is(p, path@, offset, data@, reply),
        call_ensures(dispatch::<P>, (&p, VfsRequest::Write { path, offset, data }), resp),
    ensures
        resp@ == (match reply {
            Ok(count) => if count <= data@.len() {
                ResponseV::Count(count as u64)
            } else {
                ResponseV::Errno(5)
            },
            Err(FsError::Os(errno)) => ResponseV::Errno(errno),
            Err(_) => ResponseV::Errno(5),
        }),
{
}

/// A caller frames its request under an id of its own, and takes only the reply that
/// echoes that id.
pub proof fn replies_must_echo_the_id(
    before: SocketTransport,
    payload: &[u8],
    after: SocketTransport,
    sent: Result<(u64, Vec<u8>), FsError>,
    id: u64,
    reply_id: u64,
    reply: Vec<u8>,
    taken: Result<Vec<u8>, FsError>,
)
    requires
        exists|t: &mut SocketTransport|
            *t == before && *final(t) == after && #[trigger] call_ensures(
                SocketTransport::begin_call,
                (t, payload),
                sent,
            ),
        call_ensures(
            SocketTransport::finish_call,
            (id, Ok::<(u64, Vec<u8>), FsError>((reply_id, reply))),
            taken,
        ),
    ensures
        before.next() < u64::MAX ==> after.next() == before.next() + 1,
        payload@.len() <= 0x80_0000 ==> sent is Ok && sent->Ok_0.0 == before.next() && is_frame(
            sent->Ok_0.1@,
            before.next(),
            payload@,
        ),
        payload@.len() > 0x80_0000 ==> sent == Err::<(u64, Vec<u8>), FsError>(
            FsError::InvalidInput,
        ),
        bytes_in(taken) == (if reply_id == id {
            Ok::<Seq<u8>, FsError>(reply@)
        } else {
            Err(FsError::InvalidData(DataFault::ResponseIdMismatch))
        }),
{
    if payload@.len() <= 0x80_0000 {
        lemma_frame(before.next(), payload@);
    }
}

} // verus!
