//! Lookups and attributes.

use super::naming::{
    leads_up_at, lemma_child, lemma_link_target, lemma_name_fault, lemma_resolved,
    lemma_target_fault, name_fault, target_fault,
};
use super::references::{gained, handles_same, lemma_gained};
use super::{
    bytes_in, child_at, entry_tells, getattr_is, instant_tells, kind_bits, node_at, stat_tells,
    time_tells,
};
use crate::abi::{Context, Entry, Stat64};
use crate::bytes::{dot, dotdot};
use crate::clock::{is_now, stat_time};
use crate::error::FsError;
use crate::invariants::{consistent, numbered};
use crate::path_fs::{PathFs, VAttr};
use crate::paths::{shaped, tombstones_are_private};
use crate::stat::{is_stat, shows_time, vattr_to_stat};
use crate::time::{instants_are_their_nanos, timespec_nanos, Span, VTime};
use crate::vfs::{child_lookup, is_entry, VirtualFs};
use crate::vfs::metadata::{check_access, overlay_attrs};
use vstd::prelude::*;

verus! {

/// The seconds and nanoseconds shown for an instant tell it.
proof fn lemma_instant(t: VTime, sec: i64, nsec: i64)
    requires
        (sec, nsec) == stat_time(t),
    ensures
        instant_tells(t, sec, nsec),
{
    if t.well_formed() {
        instants_are_their_nanos(t, t.nanos());
    }
}

/// The seconds and nanoseconds shown for a timestamp tell it.
proof fn lemma_time(t: Option<VTime>, sec: i64, nsec: i64)
    requires
        shows_time(t, sec, nsec),
    ensures
        time_tells(t, sec, nsec),
{
    match t {
        Some(t) => {
            lemma_instant(t, sec, nsec);
        },
        None => {
            let now = choose|now: VTime| #[trigger] is_now(now) && (sec, nsec) == stat_time(now);
            lemma_instant(now, sec, nsec);
        },
    }
}

/// What `stat` shows tells the attributes.
pub proof fn lemma_stat(ino: u64, attr: VAttr, st: Stat64)
    requires
        is_stat(ino, attr, st),
    ensures
        stat_tells(ino, attr, st),
{
    let bits = attr.kind.type_bits();
    let perm = attr.mode;
    assert(bits == kind_bits(attr.kind));
    assert((bits | (perm & 0o7777u32)) & 0xf000 == bits && (bits | (perm & 0o7777u32)) & 0xfff
        == perm & 0xfff && (bits | (perm & 0o7777u32)) <= 0xffff) by (bit_vector)
        requires
            bits == 0x1000u32 || bits == 0x2000u32 || bits == 0x4000u32 || bits == 0x6000u32
                || bits == 0x8000u32 || bits == 0xa000u32 || bits == 0xc000u32,
    ;
    lemma_time(attr.atime, st.st_atime, st.st_atime_nsec);
    lemma_time(attr.mtime, st.st_mtime, st.st_mtime_nsec);
    lemma_time(attr.ctime, st.st_ctime, st.st_ctime_nsec);
}

/// A `stat` tells the attributes that it was built from: the kind and the
/// permissions, the owner, the size and the blocks that it fills, and the times
/// to the nanosecond.
pub proof fn stats_tell_the_attributes(ino: u64, attr: &VAttr, st: Stat64)
    requires
        call_ensures(vattr_to_stat, (ino, attr), st),
    ensures
        stat_tells(ino, *attr, st),
{
    lemma_stat(ino, *attr, st);
}

/// `getattr` tells what the provider says of the path of the inode.
pub proof fn getattr_tells_what_the_provider_says<P: PathFs>(
    fs: VirtualFs<P>,
    ino: u64,
    path: Seq<u8>,
    reply: Result<VAttr, FsError>,
    r: Result<(Stat64, Span), FsError>,
)
    requires
        node_at(fs@, ino, path),
        getattr_is(fs.backend(), path, reply),
        call_ensures(VirtualFs::<P>::do_getattr, (&fs, ino), r),
    ensures
        match reply {
            Ok(attr) => r matches Ok(shown) && stat_tells(ino, attr, shown.0) && shown.1
                == fs.config().attr_timeout,
            Err(e) => r == Err::<(Stat64, Span), FsError>(e),
        },
{
    tombstones_are_private(path, ino, ino);
    if let Ok(shown) = r {
        if let Ok(attr) = reply {
            lemma_stat(ino, attr, shown.0);
        }
    }
}

/// Whether `target` is what a `setattr` request asks for: what `valid` selects is
/// what the request says, whatever it was, and what it does not select stays.
pub open spec fn asks_for(current: VAttr, attr: Stat64, valid: u32, target: VAttr) -> bool {
    &&& target.kind == current.kind
    &&& target.nlink == current.nlink
    &&& target.rdev == current.rdev
    &&& target.mode == (if valid & 0x1 != 0 {
        attr.st_mode & 0xfff
    } else {
        current.mode
    })
    &&& target.uid == (if valid & 0x2 != 0 {
        attr.st_uid
    } else {
        current.uid
    })
    &&& target.gid == (if valid & 0x4 != 0 {
        attr.st_gid
    } else {
        current.gid
    })
    &&& target.size == (if valid & 0x8 != 0 {
        attr.st_size as int
    } else {
        current.size as int
    })
    &&& valid & 0x10 == 0 ==> target.atime == current.atime
    &&& valid & 0x20 == 0 ==> target.mtime == current.mtime
    &&& valid & 0x400 == 0 ==> target.ctime == current.ctime
    &&& valid & 0x10 != 0 && valid & 0x80 == 0 ==> is_time(
        target.atime,
        attr.st_atime,
        attr.st_atime_nsec,
    )
    &&& valid & 0x20 != 0 && valid & 0x100 == 0 ==> is_time(
        target.mtime,
        attr.st_mtime,
        attr.st_mtime_nsec,
    )
    &&& valid & 0x400 != 0 ==> is_time(target.ctime, attr.st_ctime, attr.st_ctime_nsec)
}

/// Whether a timestamp is the one that seconds and nanoseconds name. Nanoseconds
/// that are not within a second count as its first or its last one.
pub open spec fn is_time(t: Option<VTime>, sec: i64, nsec: i64) -> bool {
    &&& t is Some
    &&& 0 <= nsec < 1_000_000_000 ==> t->0.nanos() == sec * 1_000_000_000 + nsec
    &&& nsec < 0 ==> t->0.nanos() == sec * 1_000_000_000
    &&& nsec >= 1_000_000_000 ==> t->0.nanos() == sec * 1_000_000_000 + 999_999_999
}

/// A `setattr` request sets what it selects, and nothing else. A negative size is
/// refused where the size is selected, and nothing else is.
pub proof fn selected_attributes_are_set(
    current: &VAttr,
    attr: &Stat64,
    valid: u32,
    atime_now: VTime,
    mtime_now: VTime,
    r: Result<VAttr, FsError>,
)
    requires
        call_ensures(overlay_attrs, (current, attr, valid, atime_now, mtime_now), r),
    ensures
        r is Err <==> valid & 0x8 != 0 && attr.st_size < 0,
        r is Err ==> r == Err::<VAttr, FsError>(FsError::Os(22)),
        r matches Ok(target) ==> asks_for(*current, *attr, valid, target),
        r matches Ok(target) ==> (valid & 0x10 != 0 && valid & 0x80 != 0 ==> target.atime == Some(
            atime_now,
        )),
        r matches Ok(target) ==> (valid & 0x20 != 0 && valid & 0x100 != 0 ==> target.mtime == Some(
            mtime_now,
        )),
{
    lemma_named_times(*attr);
    if let Ok(target) = r {
        if valid & 0x8 != 0 {
            assert(attr.st_size as u64 == attr.st_size as int);
        }
    }
}

/// Every pair of seconds and nanoseconds names an instant.
proof fn lemma_named_times(attr: Stat64)
    ensures
        is_time(
            Some(VTime::at(timespec_nanos(attr.st_atime, attr.st_atime_nsec))),
            attr.st_atime,
            attr.st_atime_nsec,
        ),
        is_time(
            Some(VTime::at(timespec_nanos(attr.st_mtime, attr.st_mtime_nsec))),
            attr.st_mtime,
            attr.st_mtime_nsec,
        ),
        is_time(
            Some(VTime::at(timespec_nanos(attr.st_ctime, attr.st_ctime_nsec))),
            attr.st_ctime,
            attr.st_ctime_nsec,
        ),
{
    lemma_named_time(attr.st_atime, attr.st_atime_nsec);
    lemma_named_time(attr.st_mtime, attr.st_mtime_nsec);
    lemma_named_time(attr.st_ctime, attr.st_ctime_nsec);
}

/// A pair of seconds and nanoseconds names an instant.
proof fn lemma_named_time(sec: i64, nsec: i64)
    ensures
        is_time(Some(VTime::at(timespec_nanos(sec, nsec))), sec, nsec),
{
    instants_are_their_nanos(VTime::at(0), timespec_nanos(sec, nsec));
}

/// Whether the times that are to be the current one are what a reading of the clock
/// says.
pub open spec fn asks_for_now(valid: u32, target: VAttr) -> bool {
    &&& valid & 0x10 != 0 && valid & 0x80 != 0 ==> target.atime is Some && is_now(target.atime->0)
    &&& valid & 0x20 != 0 && valid & 0x100 != 0 ==> target.mtime is Some && is_now(target.mtime->0)
}

/// Every answer to a `setattr` of `path` that asks for what the request asks for is
/// `reply`.
pub open spec fn setattr_is<P: PathFs>(
    p: P,
    path: Seq<u8>,
    current: VAttr,
    attr: Stat64,
    valid: u32,
    reply: Result<VAttr, FsError>,
) -> bool {
    forall|q: &[u8], target: &VAttr, a: Result<VAttr, FsError>|
        q@ == path && asks_for(current, attr, valid, *target) && asks_for_now(valid, *target)
            && #[trigger] call_ensures(P::setattr, (&p, q, target, valid), a) ==> a == reply
}

/// `setattr` asks the provider for exactly what the request selects, on top of what
/// is there, and tells what the provider made of it.
pub proof fn setattr_asks_for_what_is_selected<P: PathFs>(
    fs: VirtualFs<P>,
    ino: u64,
    path: Seq<u8>,
    attr: &Stat64,
    valid: u32,
    found: Result<VAttr, FsError>,
    reply: Result<VAttr, FsError>,
    r: Result<(Stat64, Span), FsError>,
)
    requires
        node_at(fs@, ino, path),
        getattr_is(fs.backend(), path, found),
        found matches Ok(current) ==> setattr_is(
            fs.backend(),
            path,
            current,
            *attr,
            valid,
            reply,
        ),
        call_ensures(VirtualFs::<P>::do_setattr, (&fs, ino, attr, valid), r),
    ensures
        found matches Err(e) ==> r == Err::<(Stat64, Span), FsError>(e),
        found is Ok && valid & 0x8 != 0 && attr.st_size < 0 ==> r == Err::<(Stat64, Span), FsError>(
            FsError::Os(22),
        ),
        found is Ok && !(valid & 0x8 != 0 && attr.st_size < 0) ==> (match reply {
            Ok(made) => r matches Ok(shown) && stat_tells(ino, made, shown.0) && shown.1
                == fs.config().attr_timeout,
            Err(e) => r == Err::<(Stat64, Span), FsError>(e),
        }),
{
    tombstones_are_private(path, ino, ino);
    lemma_named_times(*attr);
    if valid & 0x8 != 0 && attr.st_size >= 0 {
        assert(attr.st_size as u64 == attr.st_size as int);
    }
    if let Ok(shown) = r {
        if let Ok(made) = reply {
            if found is Ok && !(valid & 0x8 != 0 && attr.st_size < 0) {
                assert(is_stat(ino, made, shown.0));
                lemma_stat(ino, made, shown.0);
            }
        }
    }
}

/// The entry of a node tells its attributes.
pub proof fn lemma_entry<P: PathFs>(fs: VirtualFs<P>, ino: u64, attr: VAttr, e: Entry)
    requires
        is_entry(fs.config(), ino, attr, e),
    ensures
        entry_tells(fs.config(), ino, attr, e),
{
    lemma_stat(ino, attr, e.attr);
}

/// Looking a name up asks for the attributes of the path that it names, returns the
/// entry of that node, and counts one reference to it. A failed lookup counts none.
pub proof fn lookups_find_the_named_node<P: PathFs>(
    before: VirtualFs<P>,
    parent: u64,
    name: &[u8],
    path: Seq<u8>,
    reply: Result<VAttr, FsError>,
    after: VirtualFs<P>,
    r: Result<Entry, FsError>,
)
    requires
        child_at(before@, parent, name@, path),
        numbered(before@),
        before@.next_inode < u64::MAX,
        getattr_is(before.backend(), path, reply),
        exists|fs: &mut VirtualFs<P>|
            *fs == before && *final(fs) == after && #[trigger] call_ensures(
                VirtualFs::<P>::do_lookup,
                (fs, parent, name),
                r,
            ),
    ensures
        match reply {
            Ok(attr) => r matches Ok(e) && entry_tells(before.config(), e.inode, attr, e)
                && gained(before@, path, e.inode, after@) && handles_same(before@, after@),
            Err(e) => r == Err::<Entry, FsError>(e) && after@ == before@,
        },
        after.same_setup(&before),
{
    lemma_child(before@, parent, name@, path);
    lemma_gained(before@, path);
    assert(dot() =~= seq![46u8]);
    if let Ok(e) = r {
        if let Ok(attr) = reply {
            lemma_entry(before, e.inode, attr, e);
        }
    }
}

/// A name that cannot name a child, or a directory that is not known, makes a lookup fail,
/// and nothing changes.
pub proof fn unresolved_lookups_change_nothing<P: PathFs>(
    before: VirtualFs<P>,
    parent: u64,
    name: &[u8],
    after: VirtualFs<P>,
    r: Result<Entry, FsError>,
)
    requires
        consistent(before@),
        name@ != seq![46u8],
        forall|path: Seq<u8>| !#[trigger] child_at(before@, parent, name@, path),
        exists|fs: &mut VirtualFs<P>|
            *fs == before && *final(fs) == after && #[trigger] call_ensures(
                VirtualFs::<P>::do_lookup,
                (fs, parent, name),
                r,
            ),
    ensures
        r == Err::<Entry, FsError>(FsError::Os(name_fault(before@, parent, name@))),
        after@ == before@,
{
    lemma_name_fault(before@, parent, name@);
    assert(dot() =~= seq![46u8]);
    if let Ok(path) = child_lookup(before@, parent, name@) {
        lemma_resolved(before@, parent, name@, path);
    }
}

/// Looking `.` up finds the directory itself.
pub proof fn looking_up_dot_finds_the_directory<P: PathFs>(
    before: VirtualFs<P>,
    parent: u64,
    name: &[u8],
    path: Seq<u8>,
    reply: Result<VAttr, FsError>,
    after: VirtualFs<P>,
    r: Result<Entry, FsError>,
)
    requires
        consistent(before@),
        numbered(before@),
        before@.next_inode < u64::MAX,
        node_at(before@, parent, path),
        name@ == seq![46u8],
        getattr_is(before.backend(), path, reply),
        exists|fs: &mut VirtualFs<P>|
            *fs == before && *final(fs) == after && #[trigger] call_ensures(
                VirtualFs::<P>::do_lookup,
                (fs, parent, name),
                r,
            ),
    ensures
        match reply {
            Ok(attr) => r matches Ok(e) && e.inode == parent && entry_tells(
                before.config(),
                parent,
                attr,
                e,
            ) && gained(before@, path, parent, after@) && handles_same(before@, after@),
            Err(e) => r == Err::<Entry, FsError>(e) && after@ == before@,
        },
{
    tombstones_are_private(path, parent, parent);
    assert(shaped(path));
    lemma_gained(before@, path);
    assert(dot() =~= seq![46u8]);
    assert(name@ != dotdot());
    assert(!name@.contains(47)) by {
        assert(name@.len() == 1 && name@[0] == 46);
    }
    if let Ok(e) = r {
        if let Ok(attr) = reply {
            lemma_entry(before, e.inode, attr, e);
        }
    }
}

/// Whether a permission is granted by one of the three classes of a mode: `bit` is
/// the permission of that class.
pub open spec fn granted(mode: u32, mask: u32, permission: u32, bit: u32) -> bool {
    mask & permission != 0 ==> mode & bit != 0
}

/// Whether a caller may do what `mask` asks for. Only one class counts: the owner's
/// for the owner, the group's for its group, and the one of the others for
/// everybody else. Root may do anything, except execute what nobody may execute.
pub open spec fn may_access(attr: VAttr, ctx: Context, mask: u32) -> bool {
    if ctx.uid == 0 {
        mask & 1 != 0 ==> attr.mode & 0o100 != 0 || attr.mode & 0o010 != 0 || attr.mode & 0o001
            != 0
    } else if ctx.uid == attr.uid {
        &&& granted(attr.mode, mask, 4, 0o400)
        &&& granted(attr.mode, mask, 2, 0o200)
        &&& granted(attr.mode, mask, 1, 0o100)
    } else if ctx.gid == attr.gid {
        &&& granted(attr.mode, mask, 4, 0o040)
        &&& granted(attr.mode, mask, 2, 0o020)
        &&& granted(attr.mode, mask, 1, 0o010)
    } else {
        &&& granted(attr.mode, mask, 4, 0o004)
        &&& granted(attr.mode, mask, 2, 0o002)
        &&& granted(attr.mode, mask, 1, 0o001)
    }
}

/// The bits of a class, as they stand in the mode.
proof fn lemma_class_bits(mode: u32)
    ensures
        (((mode & 0o7777) >> 6) & 0o7) & 4 == 0 <==> mode & 0o400 == 0,
        (((mode & 0o7777) >> 6) & 0o7) & 2 == 0 <==> mode & 0o200 == 0,
        (((mode & 0o7777) >> 6) & 0o7) & 1 == 0 <==> mode & 0o100 == 0,
        (((mode & 0o7777) >> 3) & 0o7) & 4 == 0 <==> mode & 0o040 == 0,
        (((mode & 0o7777) >> 3) & 0o7) & 2 == 0 <==> mode & 0o020 == 0,
        (((mode & 0o7777) >> 3) & 0o7) & 1 == 0 <==> mode & 0o010 == 0,
        ((mode & 0o7777) & 0o7) & 4 == 0 <==> mode & 0o004 == 0,
        ((mode & 0o7777) & 0o7) & 2 == 0 <==> mode & 0o002 == 0,
        ((mode & 0o7777) & 0o7) & 1 == 0 <==> mode & 0o001 == 0,
        (mode & 0o7777) & 0o111 == 0 <==> mode & 0o100 == 0 && mode & 0o010 == 0 && mode & 0o001
            == 0,
        0u32 & 4 == 0 && 0u32 & 2 == 0 && 0u32 & 1 == 0,
{
    assert(((((mode & 0o7777) >> 6) & 0o7) & 4 == 0 <==> mode & 0o400 == 0) && ((((mode & 0o7777)
        >> 6) & 0o7) & 2 == 0 <==> mode & 0o200 == 0) && ((((mode & 0o7777) >> 6) & 0o7) & 1 == 0
        <==> mode & 0o100 == 0)) by (bit_vector);
    assert(((((mode & 0o7777) >> 3) & 0o7) & 4 == 0 <==> mode & 0o040 == 0) && ((((mode & 0o7777)
        >> 3) & 0o7) & 2 == 0 <==> mode & 0o020 == 0) && ((((mode & 0o7777) >> 3) & 0o7) & 1 == 0
        <==> mode & 0o010 == 0)) by (bit_vector);
    assert((((mode & 0o7777) & 0o7) & 4 == 0 <==> mode & 0o004 == 0) && (((mode & 0o7777) & 0o7) & 2
        == 0 <==> mode & 0o002 == 0) && (((mode & 0o7777) & 0o7) & 1 == 0 <==> mode & 0o001 == 0))
        by (bit_vector);
    assert((mode & 0o7777) & 0o111 == 0 <==> mode & 0o100 == 0 && mode & 0o010 == 0 && mode
        & 0o001 == 0) by (bit_vector);
    assert(0u32 & 4 == 0 && 0u32 & 2 == 0 && 0u32 & 1 == 0) by (bit_vector);
}

/// Access is decided by the one class that the caller belongs to. What is refused is
/// `EACCES`.
pub proof fn access_is_decided_by_one_class(
    attr: &VAttr,
    ctx: Context,
    mask: u32,
    r: Result<(), FsError>,
)
    requires
        call_ensures(check_access, (attr, ctx, mask), r),
    ensures
        r is Ok <==> may_access(*attr, ctx, mask),
        r is Err ==> r == Err::<(), FsError>(FsError::Os(13)),
{
    lemma_class_bits(attr.mode);
}

/// An access request is decided by what the provider says of the path.
pub proof fn access_goes_by_the_provider<P: PathFs>(
    fs: VirtualFs<P>,
    ctx: Context,
    ino: u64,
    path: Seq<u8>,
    mask: u32,
    reply: Result<VAttr, FsError>,
    r: Result<(), FsError>,
)
    requires
        node_at(fs@, ino, path),
        getattr_is(fs.backend(), path, reply),
        call_ensures(VirtualFs::<P>::do_access, (&fs, ctx, ino, mask), r),
    ensures
        match reply {
            Ok(attr) => (r is Ok <==> may_access(attr, ctx, mask)) && (r is Err ==> r == Err::<
                (),
                FsError,
            >(FsError::Os(13))),
            Err(e) => r == Err::<(), FsError>(e),
        },
{
    tombstones_are_private(path, ino, ino);
    if let Ok(attr) = reply {
        lemma_class_bits(attr.mode);
    }
}

/// Every answer to `readlink` on `path` is `reply`.
pub open spec fn readlink_is<P: PathFs>(
    p: P,
    path: Seq<u8>,
    reply: Result<Seq<u8>, FsError>,
) -> bool {
    forall|q: &[u8], a: Result<Vec<u8>, FsError>|
        q@ == path && #[trigger] call_ensures(P::readlink, (&p, q), a) ==> bytes_in(a) == reply
}

/// A link leads where the provider says, unless that would lead out of the tree.
pub proof fn links_lead_where_the_provider_says<P: PathFs>(
    fs: VirtualFs<P>,
    ino: u64,
    path: Seq<u8>,
    reply: Result<Seq<u8>, FsError>,
    r: Result<Vec<u8>, FsError>,
)
    requires
        node_at(fs@, ino, path),
        readlink_is(fs.backend(), path, reply),
        call_ensures(VirtualFs::<P>::do_readlink, (&fs, ino), r),
    ensures
        match reply {
            Ok(target) => if 1 <= target.len() <= 4096 && (forall|i: int|
                0 <= i < target.len() ==> target[i] != 0) && target[0] != 47 && (forall|at: int|
                !leads_up_at(target, at)) {
                bytes_in(r) == Ok::<Seq<u8>, FsError>(target)
            } else {
                bytes_in(r) == Err::<Seq<u8>, FsError>(FsError::Os(target_fault(target)))
            },
            Err(e) => bytes_in(r) == Err::<Seq<u8>, FsError>(e),
        },
{
    tombstones_are_private(path, ino, ino);
    if let Ok(target) = reply {
        lemma_link_target(target);
        lemma_target_fault(target);
    }
}

/// An inode that is not known or has lost its name is refused by every operation that
/// takes one: `EBADF` and `ESTALE`.
pub proof fn lost_inodes_are_refused<P: PathFs>(
    fs: VirtualFs<P>,
    ino: u64,
    attr: &Stat64,
    valid: u32,
    ctx: Context,
    mask: u32,
    got: Result<(Stat64, Span), FsError>,
    set: Result<(Stat64, Span), FsError>,
    link: Result<Vec<u8>, FsError>,
    access: Result<(), FsError>,
)
    requires
        consistent(fs@),
        !node_at(fs@, ino, fs@.nodes[ino].path),
        call_ensures(VirtualFs::<P>::do_getattr, (&fs, ino), got),
        call_ensures(VirtualFs::<P>::do_setattr, (&fs, ino, attr, valid), set),
        call_ensures(VirtualFs::<P>::do_readlink, (&fs, ino), link),
        call_ensures(VirtualFs::<P>::do_access, (&fs, ctx, ino, mask), access),
    ensures
        ({
            let lost = FsError::Os(
                if fs@.nodes.contains_key(ino) {
                    116
                } else {
                    9
                },
            );
            &&& got == Err::<(Stat64, Span), FsError>(lost)
            &&& set == Err::<(Stat64, Span), FsError>(lost)
            &&& bytes_in(link) == Err::<Seq<u8>, FsError>(lost)
            &&& access == Err::<(), FsError>(lost)
        }),
{
    if fs@.nodes.contains_key(ino) {
        tombstones_are_private(fs@.nodes[ino].path, ino, ino);
    }
}

} // verus!
