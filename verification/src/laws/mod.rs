//! What the operations are for, as laws.
//!
//! A law here speaks of a call by what goes into it and what comes out of it:
//! the arguments, the result, the tables before and after, and, where a provider
//! is asked, what that provider answers to exactly one question. It holds of
//! every call, whatever the arguments.
//!
//! A provider may answer the same question differently each time. The predicates
//! of this module say that it does not, for one question: `getattr_is` and its
//! like state that every answer to that question is the given one. A law that
//! supposes one of them says nothing about any other question, so that it also
//! tells which question is asked.

pub mod attributes;
pub mod files;
pub mod host;
pub mod listings;
pub mod naming;
pub mod provided;
pub mod references;
pub mod serving;
pub mod session;
pub mod tree;
pub mod wire_forms;
pub mod xattrs;

use crate::abi::{Entry, Stat64};
use crate::clock::is_now;
use crate::config::VirtualFsConfig;
use crate::error::FsError;
use crate::invariants::consistent;
use crate::path_fs::{NodeKind, PathFs, VAttr, VDirEntry};
use crate::tables::FsState;
use crate::time::VTime;
use vstd::prelude::*;

verus! {

/// Whether a byte string can be the name of a directory entry: 1 to 255 bytes,
/// neither `.` nor `..`, without a separator and without a NUL.
pub open spec fn proper_name(name: Seq<u8>) -> bool {
    &&& 1 <= name.len() <= 255
    &&& name != seq![46u8]
    &&& name != seq![46u8, 46u8]
    &&& forall|i: int| 0 <= i < name.len() ==> name[i] != 47 && name[i] != 0
}

/// Whether `path` names the entry `name` of the directory `dir`: it ends in the
/// name, a separator stands before that, and before the separator the path of
/// the directory, or nothing where that is the root.
pub open spec fn names_child(path: Seq<u8>, dir: Seq<u8>, name: Seq<u8>) -> bool {
    let at = path.len() - name.len() - 1;
    &&& 0 <= at
    &&& path.skip(at + 1) == name
    &&& path[at] == 47
    &&& path.take(at) == (if dir == seq![47u8] {
        Seq::<u8>::empty()
    } else {
        dir
    })
}

/// Whether the inode `ino` is known and still has the path `path`.
pub open spec fn node_at(s: FsState, ino: u64, path: Seq<u8>) -> bool {
    &&& s.nodes.contains_key(ino)
    &&& s.nodes[ino].path == path
    &&& path.len() > 0
    &&& path[0] == 47
}

/// Whether `name` in the directory `parent` is a name that can be given to a
/// node, and `path` the path that it leads to.
pub open spec fn child_at(s: FsState, parent: u64, name: Seq<u8>, path: Seq<u8>) -> bool {
    &&& consistent(s)
    &&& node_at(s, parent, s.nodes[parent].path)
    &&& proper_name(name)
    &&& names_child(path, s.nodes[parent].path, name)
    &&& path.len() <= 4096
}

/// Whether reads and writes of the open file `handle` belong to `path`: that is the
/// path of its node, also after that was renamed, and the path that it was opened
/// under once the node has lost its name.
pub open spec fn open_at(s: FsState, handle: u64, path: Seq<u8>) -> bool {
    &&& consistent(s)
    &&& s.files.contains_key(handle)
    &&& ({
        let last = match s.files[handle].orphan {
            Some(p) => p,
            None => s.nodes[s.files[handle].inode].path,
        };
        path == (if last.len() > 0 && last[0] == 47 {
            last
        } else {
            s.files[handle].path
        })
    })
}

/// Whether the open directory `handle` is the one at `path`.
pub open spec fn dir_open_at(s: FsState, handle: u64, path: Seq<u8>) -> bool {
    &&& s.dirs.contains_key(handle)
    &&& match s.dirs[handle].orphan {
        Some(p) => p == path,
        None => s.nodes.contains_key(s.dirs[handle].inode) && s.nodes[s.dirs[handle].inode].path
            == path,
    }
}

/// Whether the directory `dir` is listed afresh: every handle that is open on it has
/// no snapshot in `t`, and every other one is what it was.
pub open spec fn listed_afresh(s: FsState, dir: Seq<u8>, t: FsState) -> bool {
    forall|h: u64|
        {
            &&& #[trigger] t.dirs.contains_key(h) <==> s.dirs.contains_key(h)
            &&& s.dirs.contains_key(h) ==> t.dirs[h].inode == s.dirs[h].inode
                && t.dirs[h].orphan == s.dirs[h].orphan && t.dirs[h].snapshot == (if dir_open_at(
                s,
                h,
                dir,
            ) {
                None
            } else {
                s.dirs[h].snapshot
            })
        }
}

/// Every answer to `getattr` on `path` is `reply`.
pub open spec fn getattr_is<P: PathFs>(
    p: P,
    path: Seq<u8>,
    reply: Result<VAttr, FsError>,
) -> bool {
    forall|q: &[u8], a: Result<VAttr, FsError>|
        q@ == path && #[trigger] call_ensures(P::getattr, (&p, q), a) ==> a == reply
}

/// The bytes of an answer.
pub open spec fn bytes_in(a: Result<Vec<u8>, FsError>) -> Result<Seq<u8>, FsError> {
    match a {
        Ok(v) => Ok(v@),
        Err(e) => Err(e),
    }
}

/// Every answer to a read of `size` bytes of `path` from `offset` on is `reply`.
pub open spec fn read_is<P: PathFs>(
    p: P,
    path: Seq<u8>,
    offset: u64,
    size: u32,
    reply: Result<Seq<u8>, FsError>,
) -> bool {
    forall|q: &[u8], a: Result<Vec<u8>, FsError>|
        q@ == path && #[trigger] call_ensures(P::read, (&p, q, offset, size), a) ==> bytes_in(a)
            == reply
}

/// Every answer to a write of `data` to `path` from `offset` on is `reply`.
pub open spec fn write_is<P: PathFs>(
    p: P,
    path: Seq<u8>,
    offset: u64,
    data: Seq<u8>,
    reply: Result<usize, FsError>,
) -> bool {
    forall|q: &[u8], d: &[u8], a: Result<usize, FsError>|
        q@ == path && d@ == data && #[trigger] call_ensures(P::write, (&p, q, offset, d), a) ==> a
            == reply
}

/// Every answer to a listing of `path` is `reply`.
pub open spec fn readdir_is<P: PathFs>(
    p: P,
    path: Seq<u8>,
    reply: Result<Seq<(Seq<u8>, NodeKind)>, FsError>,
) -> bool {
    forall|q: &[u8], a: Result<Vec<VDirEntry>, FsError>|
        q@ == path && #[trigger] call_ensures(P::readdir, (&p, q), a) ==> (match a {
            Ok(v) => Ok::<Seq<(Seq<u8>, NodeKind)>, FsError>(
                Seq::new(v@.len(), |i: int| (v@[i].name@, v@[i].kind)),
            ),
            Err(e) => Err(e),
        }) == reply
}

/// The kind bits of a mode: what `stat` shows for a kind of node.
pub open spec fn kind_bits(kind: NodeKind) -> u32 {
    match kind {
        NodeKind::Fifo => 0x1000,
        NodeKind::Char => 0x2000,
        NodeKind::Dir => 0x4000,
        NodeKind::Block => 0x6000,
        NodeKind::File => 0x8000,
        NodeKind::Symlink => 0xa000,
        NodeKind::Socket => 0xc000,
    }
}

/// Whether seconds and nanoseconds tell the instant `t`: exactly, or zero where it
/// lies before the epoch.
pub open spec fn instant_tells(t: VTime, sec: i64, nsec: i64) -> bool {
    t.well_formed() ==> {
        &&& 0 <= nsec < 1_000_000_000
        &&& sec * 1_000_000_000 + nsec == (if t.nanos() < 0 {
            0
        } else {
            t.nanos()
        })
    }
}

/// Whether seconds and nanoseconds tell a timestamp. A missing one is told as the
/// current time.
pub open spec fn time_tells(t: Option<VTime>, sec: i64, nsec: i64) -> bool {
    match t {
        Some(t) => instant_tells(t, sec, nsec),
        None => exists|now: VTime| #[trigger] is_now(now) && instant_tells(now, sec, nsec),
    }
}

/// Whether `st` tells the attributes `attr` of the node `ino`.
pub open spec fn stat_tells(ino: u64, attr: VAttr, st: Stat64) -> bool {
    &&& st.st_ino == ino
    &&& st.st_dev == 0
    &&& st.st_mode & 0xf000 == kind_bits(attr.kind)
    &&& st.st_mode & 0xfff == attr.mode & 0xfff
    &&& st.st_mode <= 0xffff
    &&& st.st_uid == attr.uid
    &&& st.st_gid == attr.gid
    &&& attr.nlink matches Some(n) ==> st.st_nlink == n
    &&& attr.nlink is None ==> st.st_nlink == (if attr.kind == NodeKind::Dir {
        2int
    } else {
        1
    })
    &&& st.st_rdev == (if attr.kind == NodeKind::Char || attr.kind == NodeKind::Block {
        attr.rdev as int
    } else {
        0
    })
    &&& attr.size <= i64::MAX ==> st.st_size == attr.size
    &&& attr.size > i64::MAX ==> st.st_size == i64::MAX
    &&& st.st_blksize == 4096
    &&& attr.size <= st.st_blocks * 512 < attr.size + 512
    &&& time_tells(attr.atime, st.st_atime, st.st_atime_nsec)
    &&& time_tells(attr.mtime, st.st_mtime, st.st_mtime_nsec)
    &&& time_tells(attr.ctime, st.st_ctime, st.st_ctime_nsec)
}

/// Whether `e` is the entry of the node `ino` with the attributes `attr`, to be
/// kept as long as the configuration says.
pub open spec fn entry_tells(cfg: VirtualFsConfig, ino: u64, attr: VAttr, e: Entry) -> bool {
    &&& e.inode == ino
    &&& e.generation == 0
    &&& e.attr_flags == 0
    &&& e.attr_timeout == cfg.attr_timeout
    &&& e.entry_timeout == cfg.entry_timeout
    &&& stat_tells(ino, attr, e.attr)
}

} // verus!
