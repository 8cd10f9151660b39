//! Building a `stat64` from the portable attributes of a provider.

use crate::abi::Stat64;
use crate::clock::{is_now, stat_time, time_parts};
use crate::path_fs::{NodeKind, VAttr};
use crate::time::VTime;
use vstd::prelude::*;

verus! {

/// The link count of a node: what the provider says, or else 2 for a directory
/// and 1 for anything else.
pub open spec fn link_count(attr: VAttr) -> u64 {
    match attr.nlink {
        Some(n) => n,
        None => if attr.kind == NodeKind::Dir {
            2
        } else {
            1
        },
    }
}

/// The device number shown for a node: that of the provider for a character or
/// block device, and none for anything else.
pub open spec fn device_shown(attr: VAttr) -> u64 {
    if attr.kind == NodeKind::Char || attr.kind == NodeKind::Block {
        attr.rdev as u64
    } else {
        0
    }
}

/// Whether seconds and nanoseconds show a timestamp. A missing timestamp shows
/// as the time of a reading of the clock.
pub open spec fn shows_time(t: Option<VTime>, sec: i64, nsec: i64) -> bool {
    match t {
        Some(t) => (sec, nsec) == stat_time(t),
        None => exists|now: VTime| #[trigger] is_now(now) && (sec, nsec) == stat_time(now),
    }
}

/// Whether `st` shows the attributes `attr` of the node `ino`.
pub open spec fn is_stat(ino: u64, attr: VAttr, st: Stat64) -> bool {
    &&& st.st_dev == 0
    &&& st.st_ino == ino
    &&& st.st_nlink == link_count(attr)
    &&& st.st_mode == attr.kind.type_bits() | (attr.mode & 0o7777)
    &&& st.st_uid == attr.uid
    &&& st.st_gid == attr.gid
    &&& st.st_rdev == device_shown(attr)
    &&& st.st_size == (if attr.size > i64::MAX {
        i64::MAX as int
    } else {
        attr.size as int
    })
    &&& st.st_blksize == 4096
    &&& st.st_blocks == (attr.size + 511) / 512
    &&& shows_time(attr.atime, st.st_atime, st.st_atime_nsec)
    &&& shows_time(attr.mtime, st.st_mtime, st.st_mtime_nsec)
    &&& shows_time(attr.ctime, st.st_ctime, st.st_ctime_nsec)
}

/// Build a `stat64` from an inode number and portable attributes.
pub fn vattr_to_stat(ino: u64, attr: &VAttr) -> (st: Stat64)
    ensures
        is_stat(ino, *attr, st),
{
    let mut st = Stat64::zeroed();
    let nlink: u64 = match attr.nlink {
        Some(n) => n,
        None => if attr.kind == NodeKind::Dir {
            2
        } else {
            1
        },
    };
    st.st_ino = ino;
    st.st_mode = attr.kind.type_bits() | (attr.mode & 0o7777);
    st.st_nlink = nlink;
    if attr.kind == NodeKind::Char || attr.kind == NodeKind::Block {
        st.st_rdev = attr.rdev as u64;
    }
    st.st_uid = attr.uid;
    st.st_gid = attr.gid;
    // Saturate so that a provider reporting a very large size cannot surface a
    // negative size.
    st.st_size = if attr.size > i64::MAX as u64 {
        i64::MAX
    } else {
        attr.size as i64
    };
    st.st_blksize = 4096;
    let blocks: u64 = if attr.size % 512 == 0 {
        attr.size / 512
    } else {
        attr.size / 512 + 1
    };
    st.st_blocks = blocks as i64;
    let (asec, ansec) = time_parts(attr.atime);
    let (msec, mnsec) = time_parts(attr.mtime);
    let (csec, cnsec) = time_parts(attr.ctime);
    st.st_atime = asec;
    st.st_atime_nsec = ansec;
    st.st_mtime = msec;
    st.st_mtime_nsec = mnsec;
    st.st_ctime = csec;
    st.st_ctime_nsec = cnsec;
    st
}

} // verus!
