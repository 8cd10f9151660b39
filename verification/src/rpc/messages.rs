//! The requests and responses of the wire protocol, and the conversions between
//! wire forms and the types of the library.

use super::protocol::{
    MAX_BATCH_PATHS, MAX_BATCH_PATH_BYTES, MAX_IO_SIZE, MAX_XATTR_VALUE,
};
use crate::abi::StatVfs64;
use crate::bytes::{copy_bytes, views};
use crate::error::{DataFault, FsError};
use crate::name_validation::MAX_SYMLINK_TARGET;
use crate::path_fs::{NodeKind, VAttr, VDirEntry, VDirEntryV};
use crate::platform::{einval, enametoolong, LINUX_EINVAL, LINUX_ENAMETOOLONG};
use crate::time::{time_of_wire, time_round_trips, time_to_wire, wire_time, wire_to_time, VTime};
use vstd::prelude::*;

verus! {

/// Wire form of [`VAttr`]. Times are `(seconds, nanos)` since the epoch.
#[derive(Debug, Clone, Copy, PartialEq, Eq)]
pub struct VAttrWire {
    /// [`NodeKind`] encoded as a byte.
    pub kind: u8,
    /// Permission bits (type bits are derived from `kind`).
    pub mode: u32,
    /// Size in bytes.
    pub size: u64,
    /// Owner user id.
    pub uid: u32,
    /// Owner group id.
    pub gid: u32,
    /// Hard-link count; `None` lets the scaffold default it.
    pub nlink: Option<u64>,
    /// Device number for `Char`/`Block` nodes.
    pub rdev: u32,
    /// Last-access time; `None` means the current time.
    pub atime: Option<(i64, u32)>,
    /// Last-modification time; `None` means the current time.
    pub mtime: Option<(i64, u32)>,
    /// Last status-change time; `None` means the current time.
    pub ctime: Option<(i64, u32)>,
}

/// One path's result inside a [`VfsResponse::AttrMany`] batch.
#[derive(Debug, Clone, Copy, PartialEq, Eq)]
pub enum VAttrResult {
    /// Attributes for the path.
    Found(VAttrWire),
    /// The path's getattr failed with this Linux errno.
    Errno(i32),
}

/// Wire form of [`VDirEntry`].
#[derive(Debug, Clone, PartialEq, Eq)]
pub struct VDirEntryWire {
    /// Entry name (a single path component).
    pub name: Vec<u8>,
    /// [`NodeKind`] encoded as a byte.
    pub kind: u8,
}

/// The mathematical content of a [`VDirEntryWire`].
pub struct DirEntryWireV {
    pub name: Seq<u8>,
    pub kind: u8,
}

impl View for VDirEntryWire {
    type V = DirEntryWireV;

    open spec fn view(&self) -> DirEntryWireV {
        DirEntryWireV { name: self.name@, kind: self.kind }
    }
}

/// The contents of a list of wire entries.
pub open spec fn entry_wire_views(entries: Seq<VDirEntryWire>) -> Seq<DirEntryWireV> {
    Seq::new(entries.len(), |i: int| entries[i]@)
}

/// Wire form of the volume statistics a provider can influence.
#[derive(Debug, Clone, Copy, PartialEq, Eq, Structural)]
pub struct StatFsWire {
    /// Filesystem block size.
    pub bsize: u64,
    /// Fragment size.
    pub frsize: u64,
    /// Total data blocks.
    pub blocks: u64,
    /// Free blocks.
    pub bfree: u64,
    /// Free blocks available to unprivileged users.
    pub bavail: u64,
    /// Total inodes.
    pub files: u64,
    /// Free inodes.
    pub ffree: u64,
    /// Maximum filename length.
    pub namemax: u64,
}

/// One variant per [`PathFs`](crate::path_fs::PathFs) method. All path and name
/// fields are raw bytes.
#[derive(Debug, Clone, PartialEq, Eq)]
pub enum VfsRequest {
    GetAttr { path: Vec<u8> },
    GetAttrMany { paths: Vec<Vec<u8>> },
    ReadDir { path: Vec<u8> },
    ReadLink { path: Vec<u8> },
    Read { path: Vec<u8>, offset: u64, size: u32 },
    Write { path: Vec<u8>, offset: u64, data: Vec<u8> },
    Create { path: Vec<u8>, attr: VAttrWire },
    Mkdir { path: Vec<u8>, mode: u32 },
    Remove { path: Vec<u8> },
    Rename { from: Vec<u8>, to: Vec<u8>, flags: u32 },
    SetAttr { path: Vec<u8>, attr: VAttrWire, valid: u32 },
    Symlink { path: Vec<u8>, target: Vec<u8> },
    SetXattr { path: Vec<u8>, name: Vec<u8>, value: Vec<u8>, flags: u32 },
    GetXattr { path: Vec<u8>, name: Vec<u8> },
    ListXattr { path: Vec<u8> },
    RemoveXattr { path: Vec<u8>, name: Vec<u8> },
    Flush { path: Vec<u8> },
    Fsync { path: Vec<u8>, datasync: bool },
    FsyncDir { path: Vec<u8> },
    StatFs,
}

/// The mathematical content of a [`VfsRequest`].
#[verifier::ext_equal]
pub enum RequestV {
    GetAttr { path: Seq<u8> },
    GetAttrMany { paths: Seq<Seq<u8>> },
    ReadDir { path: Seq<u8> },
    ReadLink { path: Seq<u8> },
    Read { path: Seq<u8>, offset: u64, size: u32 },
    Write { path: Seq<u8>, offset: u64, data: Seq<u8> },
    Create { path: Seq<u8>, attr: VAttrWire },
    Mkdir { path: Seq<u8>, mode: u32 },
    Remove { path: Seq<u8> },
    Rename { from: Seq<u8>, to: Seq<u8>, flags: u32 },
    SetAttr { path: Seq<u8>, attr: VAttrWire, valid: u32 },
    Symlink { path: Seq<u8>, target: Seq<u8> },
    SetXattr { path: Seq<u8>, name: Seq<u8>, value: Seq<u8>, flags: u32 },
    GetXattr { path: Seq<u8>, name: Seq<u8> },
    ListXattr { path: Seq<u8> },
    RemoveXattr { path: Seq<u8>, name: Seq<u8> },
    Flush { path: Seq<u8> },
    Fsync { path: Seq<u8>, datasync: bool },
    FsyncDir { path: Seq<u8> },
    StatFs,
}

impl View for VfsRequest {
    type V = RequestV;

    open spec fn view(&self) -> RequestV {
        match *self {
            VfsRequest::GetAttr { path } => RequestV::GetAttr { path: path@ },
            VfsRequest::GetAttrMany { paths } => RequestV::GetAttrMany { paths: views(paths@) },
            VfsRequest::ReadDir { path } => RequestV::ReadDir { path: path@ },
            VfsRequest::ReadLink { path } => RequestV::ReadLink { path: path@ },
            VfsRequest::Read { path, offset, size } => RequestV::Read { path: path@, offset, size },
            VfsRequest::Write { path, offset, data } => RequestV::Write {
                path: path@,
                offset,
                data: data@,
            },
            VfsRequest::Create { path, attr } => RequestV::Create { path: path@, attr },
            VfsRequest::Mkdir { path, mode } => RequestV::Mkdir { path: path@, mode },
            VfsRequest::Remove { path } => RequestV::Remove { path: path@ },
            VfsRequest::Rename { from, to, flags } => RequestV::Rename {
                from: from@,
                to: to@,
                flags,
            },
            VfsRequest::SetAttr { path, attr, valid } => RequestV::SetAttr {
                path: path@,
                attr,
                valid,
            },
            VfsRequest::Symlink { path, target } => RequestV::Symlink {
                path: path@,
                target: target@,
            },
            VfsRequest::SetXattr { path, name, value, flags } => RequestV::SetXattr {
                path: path@,
                name: name@,
                value: value@,
                flags,
            },
            VfsRequest::GetXattr { path, name } => RequestV::GetXattr { path: path@, name: name@ },
            VfsRequest::ListXattr { path } => RequestV::ListXattr { path: path@ },
            VfsRequest::RemoveXattr { path, name } => RequestV::RemoveXattr {
                path: path@,
                name: name@,
            },
            VfsRequest::Flush { path } => RequestV::Flush { path: path@ },
            VfsRequest::Fsync { path, datasync } => RequestV::Fsync { path: path@, datasync },
            VfsRequest::FsyncDir { path } => RequestV::FsyncDir { path: path@ },
            VfsRequest::StatFs => RequestV::StatFs,
        }
    }
}

/// The reply to a [`VfsRequest`].
#[derive(Debug, Clone, PartialEq, Eq)]
pub enum VfsResponse {
    /// Node attributes (getattr/create/mkdir/setattr/symlink).
    Attr(VAttrWire),
    /// Per-path attributes for a batched getattr, in request order.
    AttrMany(Vec<VAttrResult>),
    /// Directory entries, excluding `.`/`..` (readdir).
    Dir(Vec<VDirEntryWire>),
    /// Raw bytes (read/readlink/getxattr).
    Bytes(Vec<u8>),
    /// Extended-attribute names (listxattr).
    Names(Vec<Vec<u8>>),
    /// Bytes accepted (write).
    Count(u64),
    /// Filesystem statistics (statfs).
    StatFs(StatFsWire),
    /// Success with no payload.
    Done,
    /// Failure carrying a Linux errno.
    Errno(i32),
}

/// The mathematical content of a [`VfsResponse`].
#[verifier::ext_equal]
pub enum ResponseV {
    Attr(VAttrWire),
    AttrMany(Seq<VAttrResult>),
    Dir(Seq<DirEntryWireV>),
    Bytes(Seq<u8>),
    Names(Seq<Seq<u8>>),
    Count(u64),
    StatFs(StatFsWire),
    Done,
    Errno(i32),
}

impl View for VfsResponse {
    type V = ResponseV;

    open spec fn view(&self) -> ResponseV {
        match *self {
            VfsResponse::Attr(a) => ResponseV::Attr(a),
            VfsResponse::AttrMany(results) => ResponseV::AttrMany(results@),
            VfsResponse::Dir(entries) => ResponseV::Dir(entry_wire_views(entries@)),
            VfsResponse::Bytes(b) => ResponseV::Bytes(b@),
            VfsResponse::Names(names) => ResponseV::Names(views(names@)),
            VfsResponse::Count(n) => ResponseV::Count(n),
            VfsResponse::StatFs(s) => ResponseV::StatFs(s),
            VfsResponse::Done => ResponseV::Done,
            VfsResponse::Errno(errno) => ResponseV::Errno(errno),
        }
    }
}

/// The byte that stands for a node kind.
pub open spec fn kind_byte(kind: NodeKind) -> u8 {
    match kind {
        NodeKind::File => 0,
        NodeKind::Dir => 1,
        NodeKind::Symlink => 2,
        NodeKind::Char => 3,
        NodeKind::Block => 4,
        NodeKind::Fifo => 5,
        NodeKind::Socket => 6,
    }
}

/// The byte that stands for a node kind.
pub fn node_kind_to_u8(kind: NodeKind) -> (r: u8)
    ensures
        r == kind_byte(kind),
{
    match kind {
        NodeKind::File => 0,
        NodeKind::Dir => 1,
        NodeKind::Symlink => 2,
        NodeKind::Char => 3,
        NodeKind::Block => 4,
        NodeKind::Fifo => 5,
        NodeKind::Socket => 6,
    }
}

/// The node kind that a byte stands for, or an error where it stands for none.
pub open spec fn kind_of_byte(v: u8) -> Result<NodeKind, FsError> {
    if exists|kind: NodeKind| #[trigger] kind_byte(kind) == v {
        Ok(choose|kind: NodeKind| #[trigger] kind_byte(kind) == v)
    } else {
        Err(FsError::InvalidData(DataFault::UnknownNodeKind))
    }
}

/// The node kind that a byte stands for, or an error where it stands for none.
pub fn node_kind_from_u8(v: u8) -> (r: Result<NodeKind, FsError>)
    ensures
        r == kind_of_byte(v),
{
    proof {
        assert(kind_byte(NodeKind::File) == 0);
        assert(kind_byte(NodeKind::Dir) == 1);
        assert(kind_byte(NodeKind::Symlink) == 2);
        assert(kind_byte(NodeKind::Char) == 3);
        assert(kind_byte(NodeKind::Block) == 4);
        assert(kind_byte(NodeKind::Fifo) == 5);
        assert(kind_byte(NodeKind::Socket) == 6);
        if let Ok(kind) = kind_of_byte(v) {
            assert(kind_byte(kind) == v);
        }
    }
    match v {
        0 => Ok(NodeKind::File),
        1 => Ok(NodeKind::Dir),
        2 => Ok(NodeKind::Symlink),
        3 => Ok(NodeKind::Char),
        4 => Ok(NodeKind::Block),
        5 => Ok(NodeKind::Fifo),
        6 => Ok(NodeKind::Socket),
        _ => Err(FsError::InvalidData(DataFault::UnknownNodeKind)),
    }
}

/// Node kinds survive the wire, and only seven bytes stand for one.
pub proof fn kinds_round_trip_over_the_wire(kind: NodeKind, v: u8)
    ensures
        kind_of_byte(kind_byte(kind)) == Ok::<NodeKind, FsError>(kind),
        kind_of_byte(v) is Ok <==> v < 7,
{
    let found = kind_of_byte(kind_byte(kind))->Ok_0;
    assert(kind_byte(found) == kind_byte(kind));
    assert(kind_byte(NodeKind::File) == 0);
    assert(kind_byte(NodeKind::Dir) == 1);
    assert(kind_byte(NodeKind::Symlink) == 2);
    assert(kind_byte(NodeKind::Char) == 3);
    assert(kind_byte(NodeKind::Block) == 4);
    assert(kind_byte(NodeKind::Fifo) == 5);
    assert(kind_byte(NodeKind::Socket) == 6);
}

/// The wire form of an optional time.
pub open spec fn opt_wire_time(t: Option<VTime>) -> Option<(i64, u32)> {
    match t {
        Some(t) => Some(wire_time(t)),
        None => None,
    }
}

/// The optional time of a wire form.
pub open spec fn opt_time_of_wire(t: Option<(i64, u32)>) -> Option<VTime> {
    match t {
        Some(t) => Some(time_of_wire(t)),
        None => None,
    }
}

fn opt_time_to_wire(t: Option<VTime>) -> (r: Option<(i64, u32)>)
    ensures
        r == opt_wire_time(t),
{
    match t {
        Some(t) => Some(time_to_wire(t)),
        None => None,
    }
}

fn opt_wire_to_time(t: Option<(i64, u32)>) -> (r: Option<VTime>)
    ensures
        r == opt_time_of_wire(t),
{
    match t {
        Some(t) => Some(wire_to_time(t)),
        None => None,
    }
}

/// The wire form of attributes.
pub open spec fn attr_wire(a: VAttr) -> VAttrWire {
    VAttrWire {
        kind: kind_byte(a.kind),
        mode: a.mode,
        size: a.size,
        uid: a.uid,
        gid: a.gid,
        nlink: a.nlink,
        rdev: a.rdev,
        atime: opt_wire_time(a.atime),
        mtime: opt_wire_time(a.mtime),
        ctime: opt_wire_time(a.ctime),
    }
}

/// The attributes of a wire form, rejecting an unknown node kind.
pub open spec fn attr_of_wire(w: VAttrWire) -> Result<VAttr, FsError> {
    match kind_of_byte(w.kind) {
        Err(e) => Err(e),
        Ok(kind) => Ok(
            VAttr {
                kind,
                mode: w.mode,
                size: w.size,
                uid: w.uid,
                gid: w.gid,
                nlink: w.nlink,
                rdev: w.rdev,
                atime: opt_time_of_wire(w.atime),
                mtime: opt_time_of_wire(w.mtime),
                ctime: opt_time_of_wire(w.ctime),
            },
        ),
    }
}

impl From<&VAttr> for VAttrWire {
    fn from(a: &VAttr) -> (r: VAttrWire) {
        VAttrWire {
            kind: node_kind_to_u8(a.kind),
            mode: a.mode,
            size: a.size,
            uid: a.uid,
            gid: a.gid,
            nlink: a.nlink,
            rdev: a.rdev,
            atime: opt_time_to_wire(a.atime),
            mtime: opt_time_to_wire(a.mtime),
            ctime: opt_time_to_wire(a.ctime),
        }
    }
}

impl vstd::std_specs::convert::FromSpecImpl<&VAttr> for VAttrWire {
    open spec fn obeys_from_spec() -> bool {
        true
    }

    open spec fn from_spec(a: &VAttr) -> VAttrWire {
        attr_wire(*a)
    }
}

impl VAttrWire {
    /// Convert back into a [`VAttr`], rejecting an unknown node kind.
    pub fn into_vattr(self) -> (r: Result<VAttr, FsError>)
        ensures
            r == attr_of_wire(self),
    {
        match node_kind_from_u8(self.kind) {
            Err(e) => Err(e),
            Ok(kind) => Ok(
                VAttr {
                    kind,
                    mode: self.mode,
                    size: self.size,
                    uid: self.uid,
                    gid: self.gid,
                    nlink: self.nlink,
                    rdev: self.rdev,
                    atime: opt_wire_to_time(self.atime),
                    mtime: opt_wire_to_time(self.mtime),
                    ctime: opt_wire_to_time(self.ctime),
                },
            ),
        }
    }
}

/// Whether an optional time is a well-formed instant.
pub open spec fn opt_time_valid(t: Option<VTime>) -> bool {
    match t {
        Some(t) => t.well_formed(),
        None => true,
    }
}

/// Whether the timestamps of attributes are well-formed instants, as those of
/// every value are that a program can build.
pub open spec fn times_valid(a: VAttr) -> bool {
    opt_time_valid(a.atime) && opt_time_valid(a.mtime) && opt_time_valid(a.ctime)
}

/// Attributes survive the wire.
pub proof fn attrs_round_trip_over_the_wire(a: VAttr)
    requires
        times_valid(a),
    ensures
        attr_of_wire(attr_wire(a)) == Ok::<VAttr, FsError>(a),
{
    kinds_round_trip_over_the_wire(a.kind, 0);
    if let Some(t) = a.atime {
        time_round_trips(t);
    }
    if let Some(t) = a.mtime {
        time_round_trips(t);
    }
    if let Some(t) = a.ctime {
        time_round_trips(t);
    }
}

/// The wire form of a directory entry.
pub open spec fn entry_wire(e: VDirEntryV) -> DirEntryWireV {
    DirEntryWireV { name: e.name, kind: kind_byte(e.kind) }
}

/// The directory entry of a wire form, rejecting an unknown node kind.
pub open spec fn entry_of_wire(w: DirEntryWireV) -> Result<VDirEntryV, FsError> {
    match kind_of_byte(w.kind) {
        Err(e) => Err(e),
        Ok(kind) => Ok(VDirEntryV { name: w.name, kind }),
    }
}

impl VDirEntryWire {
    /// The wire form of a directory entry.
    pub fn from_entry(e: &VDirEntry) -> (r: VDirEntryWire)
        ensures
            r@ == entry_wire(e@),
    {
        VDirEntryWire { name: copy_bytes(e.name.as_slice()), kind: node_kind_to_u8(e.kind) }
    }

    /// Convert back into a [`VDirEntry`].
    pub fn into_entry(self) -> (r: Result<VDirEntry, FsError>)
        ensures
            match r {
                Ok(e) => entry_of_wire(self@) == Ok::<VDirEntryV, FsError>(e@),
                Err(e) => entry_of_wire(self@) == Err::<VDirEntryV, FsError>(e),
            },
    {
        match node_kind_from_u8(self.kind) {
            Err(e) => Err(e),
            Ok(kind) => Ok(VDirEntry { name: self.name, kind }),
        }
    }
}

/// Directory entries survive the wire.
pub proof fn entries_round_trip_over_the_wire(e: VDirEntryV)
    ensures
        entry_of_wire(entry_wire(e)) == Ok::<VDirEntryV, FsError>(e),
{
    kinds_round_trip_over_the_wire(e.kind, 0);
}

/// The wire form of volume statistics.
pub open spec fn statfs_wire(s: StatVfs64) -> StatFsWire {
    StatFsWire {
        bsize: s.f_bsize,
        frsize: s.f_frsize,
        blocks: s.f_blocks,
        bfree: s.f_bfree,
        bavail: s.f_bavail,
        files: s.f_files,
        ffree: s.f_ffree,
        namemax: s.f_namemax,
    }
}

/// The volume statistics of a wire form.
pub open spec fn statfs_of_wire(w: StatFsWire) -> StatVfs64 {
    StatVfs64 {
        f_bsize: w.bsize,
        f_frsize: w.frsize,
        f_blocks: w.blocks,
        f_bfree: w.bfree,
        f_bavail: w.bavail,
        f_files: w.files,
        f_ffree: w.ffree,
        f_namemax: w.namemax,
    }
}

impl From<&StatVfs64> for StatFsWire {
    fn from(s: &StatVfs64) -> (r: StatFsWire) {
        StatFsWire {
            bsize: s.f_bsize,
            frsize: s.f_frsize,
            blocks: s.f_blocks,
            bfree: s.f_bfree,
            bavail: s.f_bavail,
            files: s.f_files,
            ffree: s.f_ffree,
            namemax: s.f_namemax,
        }
    }
}

impl vstd::std_specs::convert::FromSpecImpl<&StatVfs64> for StatFsWire {
    open spec fn obeys_from_spec() -> bool {
        true
    }

    open spec fn from_spec(s: &StatVfs64) -> StatFsWire {
        statfs_wire(*s)
    }
}

impl StatFsWire {
    /// Rebuild the statistics from the wire fields.
    pub fn into_statvfs(self) -> (r: StatVfs64)
        ensures
            r == statfs_of_wire(self),
    {
        StatVfs64 {
            f_bsize: self.bsize,
            f_frsize: self.frsize,
            f_blocks: self.blocks,
            f_bfree: self.bfree,
            f_bavail: self.bavail,
            f_files: self.files,
            f_ffree: self.ffree,
            f_namemax: self.namemax,
        }
    }
}

/// Volume statistics survive the wire, in both directions.
pub proof fn statistics_round_trip_over_the_wire(s: StatVfs64, w: StatFsWire)
    ensures
        statfs_of_wire(statfs_wire(s)) == s,
        statfs_wire(statfs_of_wire(w)) == w,
{
}

/// Map a decode or validation failure to the Linux errno sent on the wire.
pub open spec fn decode_errno(err: FsError) -> i32 {
    match err.raw_os_error() {
        Some(errno) => errno,
        None => LINUX_EINVAL,
    }
}

/// Map a decode or validation failure to the Linux errno sent on the wire.
pub fn decode_error_errno(err: &FsError) -> (r: i32)
    ensures
        r == decode_errno(*err),
{
    match err.raw_os_error() {
        Some(errno) => errno,
        None => LINUX_EINVAL,
    }
}

/// The bytes of a list of byte strings together.
pub open spec fn total_len(paths: Seq<Seq<u8>>) -> int
    decreases paths.len(),
{
    if paths.len() == 0 {
        0
    } else {
        total_len(paths.drop_last()) + paths.last().len()
    }
}

/// The verdict on the sizes a request declares.
pub open spec fn limits_check(req: RequestV) -> Result<(), FsError> {
    match req {
        RequestV::GetAttrMany { paths } => if paths.len() > MAX_BATCH_PATHS || total_len(paths)
            > MAX_BATCH_PATH_BYTES {
            Err(FsError::Os(LINUX_EINVAL))
        } else {
            Ok(())
        },
        RequestV::Read { size, .. } => if size > MAX_IO_SIZE {
            Err(FsError::Os(LINUX_EINVAL))
        } else {
            Ok(())
        },
        RequestV::Write { data, .. } => if data.len() > MAX_IO_SIZE {
            Err(FsError::Os(LINUX_EINVAL))
        } else {
            Ok(())
        },
        RequestV::Symlink { target, .. } => if target.len() > MAX_SYMLINK_TARGET {
            Err(FsError::Os(LINUX_ENAMETOOLONG))
        } else {
            Ok(())
        },
        RequestV::SetXattr { value, .. } => if value.len() > MAX_XATTR_VALUE {
            Err(FsError::Os(LINUX_EINVAL))
        } else {
            Ok(())
        },
        _ => Ok(()),
    }
}

/// Part of a list is no longer than the list.
proof fn lemma_total_len_take(paths: Seq<Seq<u8>>, n: int)
    requires
        0 <= n <= paths.len(),
    ensures
        0 <= total_len(paths.take(n)) <= total_len(paths),
    decreases paths.len(),
{
    if n < paths.len() {
        lemma_total_len_take(paths.drop_last(), n);
        assert(paths.drop_last().take(n) =~= paths.take(n));
    } else {
        assert(paths.take(n) =~= paths);
        if n > 0 {
            lemma_total_len_take(paths.drop_last(), n - 1);
        }
    }
}

/// Whether the byte strings of a list take more than `max` bytes together.
fn exceeds(paths: &Vec<Vec<u8>>, max: usize) -> (r: bool)
    ensures
        r == (total_len(views(paths@)) > max),
{
    let ghost all = views(paths@);
    let mut left: usize = max;
    let mut i: usize = 0;
    assert(all.take(0) =~= Seq::<Seq<u8>>::empty());
    while i < paths.len()
        invariant
            i <= paths.len(),
            all == views(paths@),
            left == max - total_len(all.take(i as int)),
        decreases paths.len() - i,
    {
        proof {
            assert(all.take(i + 1).drop_last() =~= all.take(i as int));
            lemma_total_len_take(all, i + 1);
        }
        let n = paths[i].len();
        if n > left {
            return true;
        }
        left -= n;
        i += 1;
    }
    assert(all.take(all.len() as int) =~= all);
    false
}

/// Reject wire requests whose declared sizes exceed protocol limits.
pub fn validate_request_limits(req: &VfsRequest) -> (r: Result<(), FsError>)
    ensures
        r == limits_check(req@),
{
    match req {
        VfsRequest::GetAttrMany { paths } => {
            if paths.len() > MAX_BATCH_PATHS {
                return Err(einval());
            }
            if exceeds(paths, MAX_BATCH_PATH_BYTES) {
                return Err(einval());
            }
            Ok(())
        },
        VfsRequest::Read { path: _, offset: _, size } => if *size > MAX_IO_SIZE {
            Err(einval())
        } else {
            Ok(())
        },
        VfsRequest::Write { path: _, offset: _, data } => if data.len() > MAX_IO_SIZE as usize {
            Err(einval())
        } else {
            Ok(())
        },
        VfsRequest::Symlink { path: _, target } => if target.len() > MAX_SYMLINK_TARGET {
            Err(enametoolong())
        } else {
            Ok(())
        },
        VfsRequest::SetXattr { path: _, name: _, value, flags: _ } => if value.len()
            > MAX_XATTR_VALUE {
            Err(einval())
        } else {
            Ok(())
        },
        _ => Ok(()),
    }
}

} // verus!
