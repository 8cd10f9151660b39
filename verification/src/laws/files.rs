//! Open files: opening and creating them, their data, and closing them.

use super::attributes::lemma_entry;
use super::naming::{lemma_child, lemma_names_child, lemma_readdir_name};
use super::references::{gained, lemma_gained, others_same};
use super::{
    bytes_in, child_at, dir_open_at, entry_tells, getattr_is, listed_afresh, node_at, open_at,
    read_is, write_is,
};
use crate::abi::Entry;
use crate::config::{CachePolicy, VirtualFsConfig};
use crate::error::FsError;
use crate::invariants::{consistent, numbered, relisting_keeps_consistency};
use crate::path_fs::{NodeKind, PathFs, VAttr};
use crate::paths::{children_stay_in_their_directory, parent_of, tombstones_are_private};
use crate::tables::{lists_one_of, relisted, FsState};
use crate::vfs::{handle_lookup, VirtualFs};
use crate::vfs::create_ops::request_mode;
use crate::vfs::file_ops::{read_reply, seek, write_reply};
use vstd::prelude::*;

verus! {

/// The path of an open file.
proof fn lemma_open_at(s: FsState, handle: u64, path: Seq<u8>)
    requires
        open_at(s, handle, path),
    ensures
        handle_lookup(s, handle) == Ok::<Seq<u8>, FsError>(path),
{
    let ino = s.files[handle].inode;
    if s.nodes.contains_key(ino) {
        tombstones_are_private(s.nodes[ino].path, ino, ino);
    }
    if let Some(p) = s.files[handle].orphan {
        tombstones_are_private(p, ino, ino);
    }
}

/// A read returns what the provider returned, whenever that is no more than was
/// asked for; only more than that is an error.
pub proof fn reads_return_the_data(
    reply: Result<Vec<u8>, FsError>,
    size: u32,
    r: Result<Vec<u8>, FsError>,
)
    requires
        call_ensures(read_reply, (reply, size), r),
    ensures
        match bytes_in(reply) {
            Ok(data) => if data.len() <= size {
                bytes_in(r) == Ok::<Seq<u8>, FsError>(data)
            } else {
                bytes_in(r) == Err::<Seq<u8>, FsError>(FsError::Os(5))
            },
            Err(e) => bytes_in(r) == Err::<Seq<u8>, FsError>(e),
        },
{
}

/// The number of bytes that a read of `size` bytes is about: no read is about more
/// than 128 KiB.
pub open spec fn readable(size: u32) -> int {
    if size <= 0x2_0000 {
        size as int
    } else {
        0x2_0000
    }
}

/// Reading an open file asks the provider for its path, from the offset on, and
/// returns what it gives.
pub proof fn open_files_are_read_at_their_path<P: PathFs>(
    fs: VirtualFs<P>,
    handle: u64,
    path: Seq<u8>,
    size: u32,
    offset: u64,
    reply: Result<Seq<u8>, FsError>,
    r: Result<Vec<u8>, FsError>,
)
    requires
        open_at(fs@, handle, path),
        read_is(fs.backend(), path, offset, readable(size) as u32, reply),
        call_ensures(VirtualFs::<P>::do_read, (&fs, handle, size, offset), r),
    ensures
        match reply {
            Ok(data) => if data.len() <= readable(size) {
                bytes_in(r) == Ok::<Seq<u8>, FsError>(data)
            } else {
                bytes_in(r) == Err::<Seq<u8>, FsError>(FsError::Os(5))
            },
            Err(e) => bytes_in(r) == Err::<Seq<u8>, FsError>(e),
        },
{
    lemma_open_at(fs@, handle, path);
}

/// The part of `content` from `offset` on, up to `size` bytes.
pub open spec fn window(content: Seq<u8>, offset: int, size: int) -> Seq<u8> {
    if offset >= content.len() {
        Seq::empty()
    } else if offset + size >= content.len() {
        content.skip(offset)
    } else {
        content.subrange(offset, offset + size)
    }
}

/// A reader gets the content of a file: of every file that the provider reads out of
/// some content, the bytes from the offset on, as many as were asked for or as there
/// are.
pub proof fn readers_get_the_content<P: PathFs>(
    fs: VirtualFs<P>,
    handle: u64,
    path: Seq<u8>,
    content: Seq<u8>,
    size: u32,
    offset: u64,
    r: Result<Vec<u8>, FsError>,
)
    requires
        open_at(fs@, handle, path),
        forall|o: u64, n: u32| #[trigger]
            read_is(fs.backend(), path, o, n, Ok(window(content, o as int, n as int))),
        call_ensures(VirtualFs::<P>::do_read, (&fs, handle, size, offset), r),
    ensures
        bytes_in(r) == Ok::<Seq<u8>, FsError>(window(content, offset as int, readable(size))),
{
    let n = readable(size) as u32;
    let reply = Ok::<Seq<u8>, FsError>(window(content, offset as int, n as int));
    assert(read_is(fs.backend(), path, offset, n, reply));
    open_files_are_read_at_their_path(fs, handle, path, size, offset, reply, r);
}

/// A write returns the count that the provider returned, whenever that is no more
/// than was written; only more than that is an error.
pub proof fn writes_return_the_count(
    reply: Result<usize, FsError>,
    len: usize,
    r: Result<usize, FsError>,
)
    requires
        call_ensures(write_reply, (reply, len), r),
    ensures
        match reply {
            Ok(count) => r == (if count <= len {
                Ok::<usize, FsError>(count)
            } else {
                Err(FsError::Os(5))
            }),
            Err(e) => r == Err::<usize, FsError>(e),
        },
{
}

/// Writing to an open file hands all of the data to the provider, for its path and
/// offset. Writing nothing always succeeds.
pub proof fn open_files_are_written_at_their_path<P: PathFs>(
    fs: VirtualFs<P>,
    handle: u64,
    path: Seq<u8>,
    data: &[u8],
    offset: u64,
    reply: Result<usize, FsError>,
    r: Result<usize, FsError>,
)
    requires
        open_at(fs@, handle, path),
        write_is(fs.backend(), path, offset, data@, reply),
        call_ensures(VirtualFs::<P>::do_write, (&fs, handle, data, offset), r),
    ensures
        data@.len() == 0 ==> r == Ok::<usize, FsError>(0),
        data@.len() > 0 ==> (match reply {
            Ok(count) => r == (if count <= data@.len() {
                Ok::<usize, FsError>(count)
            } else {
                Err(FsError::Os(5))
            }),
            Err(e) => r == Err::<usize, FsError>(e),
        }),
{
    lemma_open_at(fs@, handle, path);
}

/// Every answer to a flush of `path` is `reply`.
pub open spec fn flush_is<P: PathFs>(p: P, path: Seq<u8>, reply: Result<(), FsError>) -> bool {
    forall|q: &[u8], a: Result<(), FsError>|
        q@ == path && #[trigger] call_ensures(P::flush, (&p, q), a) ==> a == reply
}

/// Every answer to a sync of `path` is `reply`.
pub open spec fn fsync_is<P: PathFs>(
    p: P,
    path: Seq<u8>,
    datasync: bool,
    reply: Result<(), FsError>,
) -> bool {
    forall|q: &[u8], a: Result<(), FsError>|
        q@ == path && #[trigger] call_ensures(P::fsync, (&p, q, datasync), a) ==> a == reply
}

/// Flushing and syncing an open file is flushing and syncing its path.
pub proof fn open_files_are_synced_at_their_path<P: PathFs>(
    fs: VirtualFs<P>,
    handle: u64,
    path: Seq<u8>,
    datasync: bool,
    flushed: Result<(), FsError>,
    synced: Result<(), FsError>,
    f: Result<(), FsError>,
    s: Result<(), FsError>,
)
    requires
        open_at(fs@, handle, path),
        flush_is(fs.backend(), path, flushed),
        fsync_is(fs.backend(), path, datasync, synced),
        call_ensures(VirtualFs::<P>::do_flush, (&fs, handle), f),
        call_ensures(VirtualFs::<P>::do_fsync, (&fs, handle, datasync), s),
    ensures
        f == flushed,
        s == synced,
{
    lemma_open_at(fs@, handle, path);
}

/// A handle that is not open is refused by every operation on one: `EBADF`.
pub proof fn closed_files_are_refused<P: PathFs>(
    fs: VirtualFs<P>,
    handle: u64,
    size: u32,
    offset: u64,
    data: &[u8],
    datasync: bool,
    read: Result<Vec<u8>, FsError>,
    write: Result<usize, FsError>,
    flush: Result<(), FsError>,
    sync: Result<(), FsError>,
)
    requires
        !fs@.files.contains_key(handle),
        call_ensures(VirtualFs::<P>::do_read, (&fs, handle, size, offset), read),
        call_ensures(VirtualFs::<P>::do_write, (&fs, handle, data, offset), write),
        call_ensures(VirtualFs::<P>::do_flush, (&fs, handle), flush),
        call_ensures(VirtualFs::<P>::do_fsync, (&fs, handle, datasync), sync),
    ensures
        bytes_in(read) == Err::<Seq<u8>, FsError>(FsError::Os(9)),
        write == Err::<usize, FsError>(FsError::Os(9)),
        flush == Err::<(), FsError>(FsError::Os(9)),
        sync == Err::<(), FsError>(FsError::Os(9)),
{
}

/// The open options that a cache policy stands for, where `always` is the one that
/// keeps the cache.
pub open spec fn caches_as(cfg: VirtualFsConfig, always: u32, options: u32) -> bool {
    match cfg.cache_policy {
        CachePolicy::Never => options == 1,
        CachePolicy::Auto => options == 0,
        CachePolicy::Always => options == always,
    }
}

/// Whether `t` is the state after the node `ino` at `path` was opened as `handle`:
/// every other handle stays what it was.
pub open spec fn opened_as(
    s: FsState,
    ino: u64,
    path: Seq<u8>,
    handle: u64,
    t: FsState,
) -> bool {
    &&& handle == s.next_handle
    &&& s.next_handle < u64::MAX ==> t.next_handle == s.next_handle + 1
    &&& t.files.contains_key(handle)
    &&& t.files[handle].inode == ino
    &&& t.files[handle].orphan is None
    &&& t.files[handle].path == path
    &&& forall|h: u64|
        h != handle ==> (#[trigger] t.files.contains_key(h) <==> s.files.contains_key(h)) && (
        s.files.contains_key(h) ==> t.files[h] == s.files[h])
}

/// Every answer to a request to make `path` as large as `size`, and leave the rest of
/// `attr` as it is, is `reply`.
pub open spec fn resize_is<P: PathFs>(
    p: P,
    path: Seq<u8>,
    attr: VAttr,
    size: u64,
    reply: Result<VAttr, FsError>,
) -> bool {
    forall|q: &[u8], target: &VAttr, a: Result<VAttr, FsError>|
        q@ == path && *target == (VAttr { size, ..attr }) && #[trigger] call_ensures(
            P::setattr,
            (&p, q, target, 8u32),
            a,
        ) ==> a == reply
}

/// Opening a file hands out a fresh handle for its node. A directory is refused. Where
/// the flags ask for it, the file is made empty first: the handle is handed out only
/// if that succeeds, and a provider that cannot do it makes the open unsupported.
pub proof fn opening_hands_out_a_handle<P: PathFs>(
    before: VirtualFs<P>,
    ino: u64,
    path: Seq<u8>,
    flags: u32,
    attr: VAttr,
    truncated: Result<VAttr, FsError>,
    after: VirtualFs<P>,
    r: Result<(Option<u64>, u32), FsError>,
)
    requires
        consistent(before@),
        node_at(before@, ino, path),
        getattr_is(before.backend(), path, Ok(attr)),
        resize_is(before.backend(), path, attr, 0, truncated),
        exists|fs: &mut VirtualFs<P>|
            *fs == before && *final(fs) == after && #[trigger] call_ensures(
                VirtualFs::<P>::do_open,
                (fs, ino, flags),
                r,
            ),
    ensures
        after.same_setup(&before),
        after@.nodes == before@.nodes,
        after@.dirs == before@.dirs,
        after@.next_inode == before@.next_inode,
        if attr.kind == NodeKind::Dir {
            r == Err::<(Option<u64>, u32), FsError>(FsError::Os(21)) && after@ == before@
        } else if flags & 0x200 != 0 && truncated is Err {
            r == Err::<(Option<u64>, u32), FsError>(
                if truncated == Err::<VAttr, FsError>(FsError::Os(38)) {
                    FsError::Os(95)
                } else {
                    truncated->Err_0
                },
            ) && after@ == before@
        } else {
            &&& r matches Ok((Some(handle), options)) && opened_as(
                before@,
                ino,
                path,
                handle,
                after@,
            ) && caches_as(before.config(), 2, options)
        },
{
    tombstones_are_private(path, ino, ino);
}

/// Where the attributes cannot be had, a file is not opened.
pub proof fn missing_files_are_not_opened<P: PathFs>(
    before: VirtualFs<P>,
    ino: u64,
    path: Seq<u8>,
    flags: u32,
    e: FsError,
    after: VirtualFs<P>,
    r: Result<(Option<u64>, u32), FsError>,
)
    requires
        node_at(before@, ino, path),
        getattr_is(before.backend(), path, Err(e)),
        exists|fs: &mut VirtualFs<P>|
            *fs == before && *final(fs) == after && #[trigger] call_ensures(
                VirtualFs::<P>::do_open,
                (fs, ino, flags),
                r,
            ),
    ensures
        r == Err::<(Option<u64>, u32), FsError>(e),
        after@ == before@,
{
    tombstones_are_private(path, ino, ino);
}

/// Whether a creation request asks for a new node of a kind: empty, owned by nobody in
/// particular, without timestamps, and with the permissions that the umask leaves.
pub open spec fn asks_to_create(
    attr: VAttr,
    kind: NodeKind,
    mode: u32,
    umask: u32,
    rdev: u32,
) -> bool {
    &&& attr.kind == kind
    &&& attr.mode == (mode & 0xfff) & !umask
    &&& attr.size == 0
    &&& attr.uid == 0
    &&& attr.gid == 0
    &&& attr.nlink is None
    &&& attr.rdev == rdev
    &&& attr.atime is None
    &&& attr.mtime is None
    &&& attr.ctime is None
}

/// Every answer to a creation of such a node at `path` is `reply`.
pub open spec fn create_is<P: PathFs>(
    p: P,
    path: Seq<u8>,
    kind: NodeKind,
    mode: u32,
    umask: u32,
    rdev: u32,
    reply: Result<VAttr, FsError>,
) -> bool {
    forall|q: &[u8], attr: &VAttr, a: Result<VAttr, FsError>|
        q@ == path && asks_to_create(*attr, kind, mode, umask, rdev) && #[trigger] call_ensures(
            P::create,
            (&p, q, attr),
            a,
        ) ==> a == reply
}

/// The permissions that the umask leaves.
pub proof fn lemma_request_mode(mode: u32, umask: u32)
    ensures
        request_mode(mode, umask) == (mode & 0xfff) & !umask,
{
    assert((mode & 0o7777) & !(umask & 0o7777) == (mode & 0xfff) & !umask) by (bit_vector);
}

/// Dropping the listings of the directory of a child.
pub proof fn lemma_listed_afresh(s: FsState, parent: u64, name: Seq<u8>, path: Seq<u8>)
    requires
        child_at(s, parent, name, path),
    ensures
        parent_of(path) == s.nodes[parent].path,
        listed_afresh(s, s.nodes[parent].path, relisted(s, set![parent_of(path)])),
{
    let dir = s.nodes[parent].path;
    lemma_readdir_name(name);
    lemma_names_child(dir, name, path);
    lemma_child(s, parent, name, path);
    tombstones_are_private(dir, parent, parent);
    children_stay_in_their_directory(dir, name);
    let t = relisted(s, set![parent_of(path)]);
    assert forall|h: u64| #[trigger] s.dirs.contains_key(h) implies (lists_one_of(
        s.nodes,
        s.dirs[h],
        set![parent_of(path)],
    ) <==> dir_open_at(s, h, dir)) by {}
}

/// Creating a file asks the provider for a regular file with the requested permissions
/// less the umask. Its node counts one reference more, a fresh handle is open on it, and
/// the directory is listed afresh. Where the provider refuses, nothing changes.
pub proof fn creating_makes_and_opens_a_file<P: PathFs>(
    before: VirtualFs<P>,
    parent: u64,
    name: &[u8],
    path: Seq<u8>,
    mode: u32,
    umask: u32,
    reply: Result<VAttr, FsError>,
    after: VirtualFs<P>,
    r: Result<(Entry, Option<u64>, u32), FsError>,
)
    requires
        child_at(before@, parent, name@, path),
        numbered(before@),
        before@.next_inode < u64::MAX,
        create_is(before.backend(), path, NodeKind::File, mode, umask, 0, reply),
        exists|fs: &mut VirtualFs<P>|
            *fs == before && *final(fs) == after && #[trigger] call_ensures(
                VirtualFs::<P>::do_create,
                (fs, parent, name, mode, umask),
                r,
            ),
    ensures
        after.same_setup(&before),
        match reply {
            Ok(attr) => r matches Ok((e, Some(handle), options)) && entry_tells(
                before.config(),
                e.inode,
                attr,
                e,
            ) && gained(before@, path, e.inode, after@) && opened_as(
                before@,
                e.inode,
                path,
                handle,
                after@,
            ) && listed_afresh(before@, before@.nodes[parent].path, after@) && caches_as(
                before.config(),
                2,
                options,
            ),
            Err(e) => r == Err::<(Entry, Option<u64>, u32), FsError>(e) && after@ == before@,
        },
{
    lemma_child(before@, parent, name@, path);
    lemma_request_mode(mode, umask);
    lemma_listed_afresh(before@, parent, name@, path);
    let stale = relisted(before@, set![parent_of(path)]);
    relisting_keeps_consistency(before@, set![parent_of(path)]);
    lemma_gained(stale, path);
    if let Ok((e, h, o)) = r {
        if let Ok(attr) = reply {
            lemma_entry(before, e.inode, attr, e);
            lemma_gained_from(before@, stale, path, e.inode, after@);
        }
    }
}

/// What is gained is gained whatever the handles are.
pub proof fn lemma_gained_from(s: FsState, u: FsState, path: Seq<u8>, ino: u64, t: FsState)
    requires
        u.nodes == s.nodes,
        u.next_inode == s.next_inode,
        gained(u, path, ino, t),
    ensures
        gained(s, path, ino, t),
{
    assert forall|i: u64|
        #![trigger node_at(s, i, path)]
        #![trigger node_at(u, i, path)]
        node_at(s, i, path) <==> node_at(u, i, path) by {}
    assert(others_same(s, t, ino));
}

/// Reserving a range makes the file at least as large as its end, and never smaller.
/// Only a plain reservation is supported, and only up to the largest file size.
pub proof fn reserving_extends_the_file<P: PathFs>(
    fs: VirtualFs<P>,
    ino: u64,
    path: Seq<u8>,
    mode: u32,
    offset: u64,
    length: u64,
    found: Result<VAttr, FsError>,
    reply: Result<VAttr, FsError>,
    r: Result<(), FsError>,
)
    requires
        node_at(fs@, ino, path),
        getattr_is(fs.backend(), path, found),
        found is Ok && offset + length <= u64::MAX ==> resize_is(
            fs.backend(),
            path,
            found->Ok_0,
            (offset + length) as u64,
            reply,
        ),
        call_ensures(VirtualFs::<P>::do_fallocate, (&fs, ino, mode, offset, length), r),
    ensures
        if mode != 0 {
            r == Err::<(), FsError>(FsError::Os(95))
        } else if offset + length > u64::MAX {
            r == Err::<(), FsError>(FsError::Os(22))
        } else if offset + length > i64::MAX {
            r == Err::<(), FsError>(FsError::Os(27))
        } else if found is Err {
            r == Err::<(), FsError>(found->Err_0)
        } else if offset + length <= found->Ok_0.size {
            r == Ok::<(), FsError>(())
        } else {
            r == (match reply {
                Ok(_) => Ok::<(), FsError>(()),
                Err(e) => Err(e),
            })
        },
{
    tombstones_are_private(path, ino, ino);
}

/// The number that 64 bits stand for when they are read as a signed one.
pub open spec fn signed(n: u64) -> int {
    if n < 0x8000_0000_0000_0000 {
        n as int
    } else {
        n - 0x1_0000_0000_0000_0000
    }
}

/// Where a seek in a file of `size` bytes leads: to the offset itself, to the offset
/// from the end, or to the data or the hole at or after it. A file is all data, and
/// the hole is behind it. There is no position before the start.
pub open spec fn seeks_to(size: u64, offset: u64, whence: u32, r: Result<u64, FsError>) -> bool {
    &&& whence == 0 ==> r == Ok::<u64, FsError>(offset)
    &&& whence == 2 && 0 <= signed(size) + signed(offset) <= i64::MAX ==> r == Ok::<u64, FsError>(
        (signed(size) + signed(offset)) as u64,
    )
    &&& whence == 2 && !(0 <= signed(size) + signed(offset) <= i64::MAX) ==> r == Err::<
        u64,
        FsError,
    >(FsError::Os(22))
    &&& whence == 3 && offset < size ==> r == Ok::<u64, FsError>(offset)
    &&& whence == 4 && offset < size ==> r == Ok::<u64, FsError>(size)
    &&& (whence == 3 || whence == 4) && offset >= size ==> r == Err::<u64, FsError>(FsError::Os(6))
    &&& whence == 1 || whence > 4 ==> r == Err::<u64, FsError>(FsError::Os(22))
}

/// Reading 64 bits as a signed number.
proof fn lemma_signed(n: u64)
    ensures
        n as i64 == signed(n),
{
    assert(n < 0x8000_0000_0000_0000u64 ==> n as i64 == n) by (bit_vector);
    assert(n >= 0x8000_0000_0000_0000u64 ==> n as i64 == n - 0x1_0000_0000_0000_0000) by (
    bit_vector);
}

/// A seek leads where it says.
pub proof fn seeks_lead_where_they_say(
    size: u64,
    offset: u64,
    whence: u32,
    r: Result<u64, FsError>,
)
    requires
        call_ensures(seek, (size, offset, whence), r),
    ensures
        seeks_to(size, offset, whence, r),
{
    lemma_signed(size);
    lemma_signed(offset);
}

/// A seek goes by the size that the provider tells of the path.
pub proof fn seeks_go_by_the_provider<P: PathFs>(
    fs: VirtualFs<P>,
    ino: u64,
    path: Seq<u8>,
    offset: u64,
    whence: u32,
    reply: Result<VAttr, FsError>,
    r: Result<u64, FsError>,
)
    requires
        node_at(fs@, ino, path),
        getattr_is(fs.backend(), path, reply),
        call_ensures(VirtualFs::<P>::do_lseek, (&fs, ino, offset, whence), r),
    ensures
        match reply {
            Ok(attr) => seeks_to(attr.size, offset, whence, r),
            Err(e) => r == Err::<u64, FsError>(e),
        },
{
    tombstones_are_private(path, ino, ino);
    if let Ok(attr) = reply {
        lemma_signed(attr.size);
        lemma_signed(offset);
    }
}

/// An inode that is not known or has lost its name cannot be opened, extended or searched,
/// neither as a file nor as a directory: `EBADF` and `ESTALE`.
pub proof fn lost_inodes_are_not_opened<P: PathFs>(
    before: VirtualFs<P>,
    ino: u64,
    flags: u32,
    file: (VirtualFs<P>, Result<(Option<u64>, u32), FsError>),
    dir: (VirtualFs<P>, Result<(Option<u64>, u32), FsError>),
    offset: u64,
    length: u64,
    whence: u32,
    extended: Result<(), FsError>,
    position: Result<u64, FsError>,
)
    requires
        consistent(before@),
        !node_at(before@, ino, before@.nodes[ino].path),
        exists|fs: &mut VirtualFs<P>|
            *fs == before && *final(fs) == file.0 && #[trigger] call_ensures(
                VirtualFs::<P>::do_open,
                (fs, ino, flags),
                file.1,
            ),
        exists|fs: &mut VirtualFs<P>|
            *fs == before && *final(fs) == dir.0 && #[trigger] call_ensures(
                VirtualFs::<P>::do_opendir,
                (fs, ino),
                dir.1,
            ),
        call_ensures(VirtualFs::<P>::do_fallocate, (&before, ino, 0u32, offset, length), extended),
        call_ensures(VirtualFs::<P>::do_lseek, (&before, ino, offset, whence), position),
    ensures
        ({
            let lost = FsError::Os(
                if before@.nodes.contains_key(ino) {
                    116
                } else {
                    9
                },
            );
            &&& file.1 == Err::<(Option<u64>, u32), FsError>(lost) && file.0@ == before@
            &&& dir.1 == Err::<(Option<u64>, u32), FsError>(lost) && dir.0@ == before@
            &&& extended == Err::<(), FsError>(lost)
            &&& position == Err::<u64, FsError>(lost)
        }),
{
    if before@.nodes.contains_key(ino) {
        tombstones_are_private(before@.nodes[ino].path, ino, ino);
    }
}

/// Closing a file drops its handle and no other, also where the flush fails. Where a
/// flush is asked for, the result is that of the flush.
pub proof fn closing_drops_the_handle<P: PathFs>(
    before: VirtualFs<P>,
    handle: u64,
    flush: bool,
    path: Seq<u8>,
    reply: Result<(), FsError>,
    after: VirtualFs<P>,
    r: Result<(), FsError>,
)
    requires
        flush_is(before.backend(), path, reply),
        exists|fs: &mut VirtualFs<P>|
            *fs == before && *final(fs) == after && #[trigger] call_ensures(
                VirtualFs::<P>::do_release,
                (fs, handle, flush),
                r,
            ),
    ensures
        after.same_setup(&before),
        after@.nodes == before@.nodes,
        after@.dirs == before@.dirs,
        after@.next_inode == before@.next_inode,
        after@.next_handle == before@.next_handle,
        !after@.files.contains_key(handle),
        forall|h: u64|
            h != handle ==> (#[trigger] after@.files.contains_key(h)
                <==> before@.files.contains_key(h)) && (before@.files.contains_key(h)
                ==> after@.files[h] == before@.files[h]),
        !flush ==> r == Ok::<(), FsError>(()),
        flush && open_at(before@, handle, path) ==> r == reply,
        flush && !before@.files.contains_key(handle) ==> r == Err::<(), FsError>(FsError::Os(9)),
{
    if open_at(before@, handle, path) {
        lemma_open_at(before@, handle, path);
    }
}

/// A handle that was just opened leads to the path of its node.
pub proof fn fresh_handles_are_open(
    s: FsState,
    ino: u64,
    path: Seq<u8>,
    handle: u64,
    t: FsState,
)
    requires
        consistent(t),
        node_at(t, ino, path),
        opened_as(s, ino, path, handle, t),
    ensures
        open_at(t, handle, path),
{
}

} // verus!
