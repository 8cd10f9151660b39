//! The tree: making nodes, removing them, and moving them about.

use super::attributes::lemma_entry;
use super::files::{create_is, lemma_gained_from, lemma_listed_afresh, lemma_request_mode};
use super::naming::{
    inode_fault, label_fault, leads_up_at, lemma_child, lemma_inode_fault, lemma_label_fault,
    lemma_link_target, lemma_name_fault, lemma_names_child, lemma_path_fault, lemma_readdir_name,
    lemma_resolved, lemma_target_fault, name_fault, path_fault, target_fault,
};
use super::references::{gained, lemma_gained, others_same};
use super::{
    child_at, dir_open_at, entry_tells, getattr_is, kind_bits, listed_afresh, node_at, open_at,
    proper_name,
};
use crate::abi::Entry;
use crate::bytes::{dot, dotdot, root};
use crate::error::FsError;
use crate::invariants::{
    a_path_names_one_inode, consistent, detaching_keeps_consistency, numbered,
    relisting_keeps_consistency, renaming_keeps_consistency,
};
use crate::name_validation::{readdir_name_check, symlink_target_check};
use crate::path_fs::{
    check_dir_empty_for_rmdir, entry_views, kind_of_mode, NodeKind, PathFs, VAttr, VDirEntry,
};
use crate::paths::{
    at_or_under, children_stay_in_their_directory, parent_of, shaped, tombstone,
    tombstones_are_private,
};
use crate::tables::{
    detached, inode_at, is_at, lemma_inode_at_some, lists_one_of, relisted, remapped,
    renamed_listings, FsState,
};
use crate::vfs::{child_lookup, VirtualFs};
use crate::vfs::create_ops::created;
use crate::vfs::remove_ops::{
    check_rename_flags, directory_removed, rename_flags_check, rename_paths, renamed, unlinked,
};
use vstd::prelude::*;

verus! {

/// Whether a node was made at `path` in the directory `dir`: its entry is returned, it
/// counts one reference more, and the directory is listed afresh. No file is touched.
pub open spec fn made<P: PathFs>(
    before: VirtualFs<P>,
    dir: Seq<u8>,
    path: Seq<u8>,
    attr: VAttr,
    after: VirtualFs<P>,
    r: Result<Entry, FsError>,
) -> bool {
    r matches Ok(e) && entry_tells(before.config(), e.inode, attr, e) && gained(
        before@,
        path,
        e.inode,
        after@,
    ) && listed_afresh(before@, dir, after@) && after@.files == before@.files
        && after@.next_handle == before@.next_handle
}

/// What becomes of a reply to a creation.
proof fn lemma_made<P: PathFs>(
    before: VirtualFs<P>,
    parent: u64,
    name: Seq<u8>,
    path: Seq<u8>,
    attr: VAttr,
    after: VirtualFs<P>,
    r: Result<Entry, FsError>,
)
    requires
        child_at(before@, parent, name, path),
        numbered(before@),
        before@.next_inode < u64::MAX,
        created(before.config(), before@, path, Ok(attr), after@, r),
    ensures
        made(before, before@.nodes[parent].path, path, attr, after, r),
{
    lemma_child(before@, parent, name, path);
    lemma_listed_afresh(before@, parent, name, path);
    let stale = relisted(before@, set![parent_of(path)]);
    relisting_keeps_consistency(before@, set![parent_of(path)]);
    lemma_gained(stale, path);
    let e = r->Ok_0;
    lemma_entry(before, e.inode, attr, e);
    lemma_gained_from(before@, stale, path, e.inode, after@);
}

/// Every answer to a creation of the directory `path` with these permissions is
/// `reply`.
pub open spec fn mkdir_is<P: PathFs>(
    p: P,
    path: Seq<u8>,
    mode: u32,
    reply: Result<VAttr, FsError>,
) -> bool {
    forall|q: &[u8], a: Result<VAttr, FsError>|
        q@ == path && #[trigger] call_ensures(P::mkdir, (&p, q, mode), a) ==> a == reply
}

/// Making a directory asks for the requested permissions less the umask.
pub proof fn directories_are_made_where_they_are_named<P: PathFs>(
    before: VirtualFs<P>,
    parent: u64,
    name: &[u8],
    path: Seq<u8>,
    mode: u32,
    umask: u32,
    reply: Result<VAttr, FsError>,
    after: VirtualFs<P>,
    r: Result<Entry, FsError>,
)
    requires
        child_at(before@, parent, name@, path),
        numbered(before@),
        before@.next_inode < u64::MAX,
        mkdir_is(before.backend(), path, (mode & 0xfff) & !umask, reply),
        exists|fs: &mut VirtualFs<P>|
            *fs == before && *final(fs) == after && #[trigger] call_ensures(
                VirtualFs::<P>::do_mkdir,
                (fs, parent, name, mode, umask),
                r,
            ),
    ensures
        after.same_setup(&before),
        match reply {
            Ok(attr) => made(before, before@.nodes[parent].path, path, attr, after, r),
            Err(e) => r == Err::<Entry, FsError>(e) && after@ == before@,
        },
{
    lemma_child(before@, parent, name@, path);
    lemma_request_mode(mode, umask);
    if let Ok(attr) = reply {
        lemma_made(before, parent, name@, path, attr, after, r);
    }
}

/// Making a special node asks for the kind that the mode names, with the requested
/// permissions less the umask and the device number. A mode that names no kind is
/// refused.
pub proof fn nodes_are_made_as_the_mode_says<P: PathFs>(
    before: VirtualFs<P>,
    parent: u64,
    name: &[u8],
    path: Seq<u8>,
    mode: u32,
    rdev: u32,
    umask: u32,
    kind: NodeKind,
    reply: Result<VAttr, FsError>,
    after: VirtualFs<P>,
    r: Result<Entry, FsError>,
)
    requires
        child_at(before@, parent, name@, path),
        numbered(before@),
        before@.next_inode < u64::MAX,
        create_is(before.backend(), path, kind, mode, umask, rdev, reply),
        exists|fs: &mut VirtualFs<P>|
            *fs == before && *final(fs) == after && #[trigger] call_ensures(
                VirtualFs::<P>::do_mknod,
                (fs, parent, name, mode, rdev, umask),
                r,
            ),
    ensures
        after.same_setup(&before),
        mode & 0xf000 == kind_bits(kind) ==> (match reply {
            Ok(attr) => made(before, before@.nodes[parent].path, path, attr, after, r),
            Err(e) => r == Err::<Entry, FsError>(e) && after@ == before@,
        }),
        (forall|k: NodeKind| mode & 0xf000 != #[trigger] kind_bits(k)) ==> r == Err::<
            Entry,
            FsError,
        >(FsError::Os(22)) && after@ == before@,
{
    lemma_child(before@, parent, name@, path);
    lemma_request_mode(mode, umask);
    lemma_kind_of_mode(mode, kind);
    if mode & 0xf000 == kind_bits(kind) {
        if let Ok(attr) = reply {
            lemma_made(before, parent, name@, path, attr, after, r);
        }
    }
    if forall|k: NodeKind| mode & 0xf000 != #[trigger] kind_bits(k) {
        if let Some(k) = kind_of_mode(mode) {
            assert(k.type_bits() == mode & 0xf000);
            assert(kind_bits(k) == k.type_bits());
        }
    }
}

/// The kind that a mode names.
proof fn lemma_kind_of_mode(mode: u32, kind: NodeKind)
    ensures
        mode & 0xf000 == kind_bits(kind) <==> kind_of_mode(mode) == Some(kind),
{
    assert(kind_bits(kind) == kind.type_bits());
    if mode & 0xf000 == kind_bits(kind) {
        let found = kind_of_mode(mode)->0;
        assert(kind.type_bits() == mode & 0xf000);
        assert(found.type_bits() == mode & 0xf000);
    }
}

/// Every answer to a creation of the link `path` to `target` is `reply`.
pub open spec fn symlink_is<P: PathFs>(
    p: P,
    path: Seq<u8>,
    target: Seq<u8>,
    reply: Result<VAttr, FsError>,
) -> bool {
    forall|q: &[u8], t: &[u8], a: Result<VAttr, FsError>|
        q@ == path && t@ == target && #[trigger] call_ensures(P::symlink, (&p, q, t), a) ==> a
            == reply
}

/// Making a link asks for a link at the named path to the given target. A target that
/// would lead out of the tree is refused.
pub proof fn links_are_made_to_their_target<P: PathFs>(
    before: VirtualFs<P>,
    target: &[u8],
    parent: u64,
    name: &[u8],
    path: Seq<u8>,
    reply: Result<VAttr, FsError>,
    after: VirtualFs<P>,
    r: Result<Entry, FsError>,
)
    requires
        child_at(before@, parent, name@, path),
        numbered(before@),
        before@.next_inode < u64::MAX,
        symlink_is(before.backend(), path, target@, reply),
        exists|fs: &mut VirtualFs<P>|
            *fs == before && *final(fs) == after && #[trigger] call_ensures(
                VirtualFs::<P>::do_symlink,
                (fs, target, parent, name),
                r,
            ),
    ensures
        after.same_setup(&before),
        if 1 <= target@.len() <= 4096 && (forall|i: int|
            0 <= i < target@.len() ==> target@[i] != 0) && target@[0] != 47 && (forall|at: int|
            !leads_up_at(target@, at)) {
            match reply {
                Ok(attr) => made(before, before@.nodes[parent].path, path, attr, after, r),
                Err(e) => r == Err::<Entry, FsError>(e) && after@ == before@,
            }
        } else {
            r == Err::<Entry, FsError>(FsError::Os(target_fault(target@))) && after@ == before@
        },
{
    lemma_child(before@, parent, name@, path);
    lemma_link_target(target@);
    lemma_target_fault(target@);
    if symlink_target_check(target@) is Ok {
        if let Ok(attr) = reply {
            lemma_made(before, parent, name@, path, attr, after, r);
        }
    }
}

/// Whether the name `path` is gone: no node has it. The node that had it is forgotten
/// where the guest does not reference it, and else keeps its count without a path.
/// Every other node stays.
pub open spec fn unnamed(s: FsState, path: Seq<u8>, t: FsState) -> bool {
    &&& forall|i: u64| !#[trigger] node_at(t, i, path)
    &&& forall|i: u64| #[trigger]
        node_at(s, i, path) ==> {
            &&& others_same(s, t, i)
            &&& s.nodes[i].refs == 0 ==> !t.nodes.contains_key(i)
            &&& s.nodes[i].refs > 0 ==> t.nodes.contains_key(i) && t.nodes[i].refs
                == s.nodes[i].refs && t.nodes[i].path.len() > 0 && t.nodes[i].path[0] != 47
        }
    &&& (forall|i: u64| !#[trigger] node_at(s, i, path)) ==> t.nodes == s.nodes
    &&& t.next_inode == s.next_inode
    &&& t.next_handle == s.next_handle
}

/// Whether the open files stay open, and those on a node without path go on under the
/// path that they were opened with, all others where they were.
pub open spec fn files_stay(s: FsState, path: Seq<u8>, t: FsState) -> bool {
    forall|h: u64, q: Seq<u8>| #[trigger]
        open_at(s, h, q) ==> open_at(
            t,
            h,
            if s.files[h].orphan is None && s.nodes[s.files[h].inode].path == path
                && s.nodes[s.files[h].inode].refs > 0 {
                s.files[h].path
            } else {
                q
            },
        )
}

/// Whether the snapshots of the open directories at one of two paths are dropped, and
/// no other is.
pub open spec fn snapshots_dropped(s: FsState, a: Seq<u8>, b: Seq<u8>, t: FsState) -> bool {
    forall|h: u64|
        {
            &&& #[trigger] t.dirs.contains_key(h) <==> s.dirs.contains_key(h)
            &&& s.dirs.contains_key(h) ==> t.dirs[h].inode == s.dirs[h].inode
                && t.dirs[h].snapshot == (if dir_open_at(s, h, a) || dir_open_at(s, h, b) {
                None
            } else {
                s.dirs[h].snapshot
            })
        }
}

/// Detaching a path takes its name away.
proof fn lemma_unnamed(s: FsState, path: Seq<u8>)
    requires
        consistent(s),
        shaped(path),
    ensures
        unnamed(s, path, detached(s, path)),
        files_stay(s, path, detached(s, path)),
        consistent(detached(s, path)),
{
    let t = detached(s, path);
    detaching_keeps_consistency(s, path);
    assert forall|i: u64| #[trigger] node_at(s, i, path) implies inode_at(s.nodes, path)
        == Some(i) by {
        a_path_names_one_inode(s, i);
    }
    if let Some(i) = inode_at(s.nodes, path) {
        let some = choose|i: u64| #[trigger] is_at(s.nodes, i, path);
        lemma_inode_at_some(s.nodes, some, path);
        assert(node_at(s, i, path));
        tombstones_are_private(path, i, i);
    } else {
        assert forall|i: u64| !#[trigger] node_at(s, i, path) by {
            if node_at(s, i, path) {
                assert(is_at(s.nodes, i, path));
            }
        }
    }
    assert forall|i: u64| !#[trigger] node_at(t, i, path) by {
        if node_at(t, i, path) {
            assert(is_at(t.nodes, i, path));
            assert(is_at(s.nodes, i, path) || i == inode_at(s.nodes, path)->0);
        }
    }
    assert forall|h: u64, q: Seq<u8>| #[trigger] open_at(s, h, q) implies open_at(
        t,
        h,
        if s.files[h].orphan is None && s.nodes[s.files[h].inode].path == path
            && s.nodes[s.files[h].inode].refs > 0 {
            s.files[h].path
        } else {
            q
        },
    ) by {
        let ino = s.files[h].inode;
        assert(t.files.contains_key(h));
        if s.files[h].orphan is None {
            assert(s.nodes.contains_key(ino));
            tombstones_are_private(s.nodes[ino].path, ino, ino);
            if s.nodes[ino].path == path {
                assert(node_at(s, ino, path));
            }
        }
    }
}

/// Every answer to a removal of `path` is `reply`.
pub open spec fn remove_is<P: PathFs>(p: P, path: Seq<u8>, reply: Result<(), FsError>) -> bool {
    forall|q: &[u8], a: Result<(), FsError>|
        q@ == path && #[trigger] call_ensures(P::remove, (&p, q), a) ==> a == reply
}

/// Dropping the listing of the directory of a detached child.
proof fn lemma_unlinked_listings(s: FsState, parent: u64, name: Seq<u8>, path: Seq<u8>)
    requires
        child_at(s, parent, name, path),
    ensures
        snapshots_dropped(s, s.nodes[parent].path, s.nodes[parent].path, unlinked(s, path)),
{
    let dir = s.nodes[parent].path;
    lemma_readdir_name(name);
    lemma_names_child(dir, name, path);
    lemma_child(s, parent, name, path);
    tombstones_are_private(dir, parent, parent);
    children_stay_in_their_directory(dir, name);
    let u = detached(s, path);
    let t = unlinked(s, path);
    lemma_unnamed(s, path);
    assert(path.len() > dir.len());
    assert forall|h: u64| #[trigger] s.dirs.contains_key(h) implies u.dirs.contains_key(h)
        && u.dirs[h].inode == s.dirs[h].inode && u.dirs[h].snapshot == s.dirs[h].snapshot && (
    lists_one_of(u.nodes, u.dirs[h], set![dir]) <==> dir_open_at(s, h, dir)) by {
        let ino = s.dirs[h].inode;
        if let Some(i) = inode_at(s.nodes, path) {
            let some = choose|i: u64| #[trigger] is_at(s.nodes, i, path);
            lemma_inode_at_some(s.nodes, some, path);
            tombstones_are_private(dir, i, i);
        }
    }
}

/// Unlinking asks the provider to remove the named path, unless a directory is there.
/// On success the name is gone and the directory is listed afresh. Files that are open
/// on the node stay open.
pub proof fn unlinking_removes_the_name<P: PathFs>(
    before: VirtualFs<P>,
    parent: u64,
    name: &[u8],
    path: Seq<u8>,
    found: Result<VAttr, FsError>,
    reply: Result<(), FsError>,
    after: VirtualFs<P>,
    r: Result<(), FsError>,
)
    requires
        child_at(before@, parent, name@, path),
        getattr_is(before.backend(), path, found),
        remove_is(before.backend(), path, reply),
        exists|fs: &mut VirtualFs<P>|
            *fs == before && *final(fs) == after && #[trigger] call_ensures(
                VirtualFs::<P>::do_unlink,
                (fs, parent, name),
                r,
            ),
    ensures
        after.same_setup(&before),
        match found {
            Err(e) => r == Err::<(), FsError>(e) && after@ == before@,
            Ok(attr) => if attr.kind == NodeKind::Dir {
                r == Err::<(), FsError>(FsError::Os(21)) && after@ == before@
            } else {
                &&& r == reply
                &&& reply is Err ==> after@ == before@
                &&& reply is Ok ==> {
                    &&& unnamed(before@, path, after@)
                    &&& files_stay(before@, path, after@)
                    &&& snapshots_dropped(
                        before@,
                        before@.nodes[parent].path,
                        before@.nodes[parent].path,
                        after@,
                    )
                }
            },
        },
{
    lemma_child(before@, parent, name@, path);
    lemma_unnamed(before@, path);
    lemma_unlinked_listings(before@, parent, name@, path);
    let u = detached(before@, path);
    relisting_keeps_consistency(u, set![parent_of(path)]);
    lemma_relisted_files(before@, path, u, set![parent_of(path)]);
}

/// Dropping listings touches no node and no file.
proof fn lemma_relisted_files(s: FsState, path: Seq<u8>, u: FsState, dirs: Set<Seq<u8>>)
    requires
        consistent(u),
        unnamed(s, path, u),
        files_stay(s, path, u),
    ensures
        unnamed(s, path, relisted(u, dirs)),
        files_stay(s, path, relisted(u, dirs)),
{
    let t = relisted(u, dirs);
    relisting_keeps_consistency(u, dirs);
    assert forall|i: u64| !#[trigger] node_at(t, i, path) by {
        assert(!node_at(u, i, path));
    }
    assert forall|h: u64, q: Seq<u8>| #[trigger] open_at(u, h, q) implies open_at(t, h, q) by {}
    assert forall|i: u64| #[trigger] node_at(s, i, path) implies others_same(s, t, i) by {
        assert(others_same(s, u, i));
    }
}

/// Every answer to a removal of the directory `path` is `reply`.
pub open spec fn rmdir_is<P: PathFs>(p: P, path: Seq<u8>, reply: Result<(), FsError>) -> bool {
    forall|q: &[u8], a: Result<(), FsError>|
        q@ == path && #[trigger] call_ensures(P::rmdir, (&p, q), a) ==> a == reply
}

/// Removing a directory asks the provider to remove the named path as a directory. On
/// success the name is gone, and the directory and the one above it are listed afresh.
pub proof fn removing_a_directory_removes_the_name<P: PathFs>(
    before: VirtualFs<P>,
    parent: u64,
    name: &[u8],
    path: Seq<u8>,
    reply: Result<(), FsError>,
    after: VirtualFs<P>,
    r: Result<(), FsError>,
)
    requires
        child_at(before@, parent, name@, path),
        rmdir_is(before.backend(), path, reply),
        exists|fs: &mut VirtualFs<P>|
            *fs == before && *final(fs) == after && #[trigger] call_ensures(
                VirtualFs::<P>::do_rmdir,
                (fs, parent, name),
                r,
            ),
    ensures
        after.same_setup(&before),
        r == reply,
        reply is Err ==> after@ == before@,
        reply is Ok ==> {
            &&& unnamed(before@, path, after@)
            &&& files_stay(before@, path, after@)
            &&& snapshots_dropped(before@, before@.nodes[parent].path, path, after@)
        },
{
    lemma_child(before@, parent, name@, path);
    lemma_directory_removed(before@, parent, name@, path);
}

/// What the removal of a directory does to the tables.
proof fn lemma_directory_removed(s: FsState, parent: u64, name: Seq<u8>, path: Seq<u8>)
    requires
        child_at(s, parent, name, path),
    ensures
        unnamed(s, path, directory_removed(s, path)),
        files_stay(s, path, directory_removed(s, path)),
        snapshots_dropped(s, s.nodes[parent].path, path, directory_removed(s, path)),
{
    let dir = s.nodes[parent].path;
    lemma_readdir_name(name);
    lemma_names_child(dir, name, path);
    lemma_child(s, parent, name, path);
    tombstones_are_private(dir, parent, parent);
    tombstones_are_private(path, parent, parent);
    children_stay_in_their_directory(dir, name);
    let both = set![path, parent_of(path)];
    let u = relisted(s, both);
    let t = directory_removed(s, path);
    relisting_keeps_consistency(s, both);
    lemma_unnamed(u, path);
    assert forall|i: u64|
        #![trigger node_at(s, i, path)]
        #![trigger node_at(u, i, path)]
        node_at(s, i, path) <==> node_at(u, i, path) by {}
    assert forall|i: u64| #[trigger] node_at(s, i, path) implies others_same(s, t, i) by {
        assert(others_same(u, t, i));
    }
    assert forall|h: u64, q: Seq<u8>| #[trigger] open_at(s, h, q) implies open_at(u, h, q) by {}
    assert(files_stay(s, path, t)) by {
        assert forall|h: u64, q: Seq<u8>| #[trigger] open_at(s, h, q) implies open_at(
            t,
            h,
            if s.files[h].orphan is None && s.nodes[s.files[h].inode].path == path
                && s.nodes[s.files[h].inode].refs > 0 {
                s.files[h].path
            } else {
                q
            },
        ) by {
            assert(open_at(u, h, q));
        }
    }
    assert forall|h: u64| #[trigger] s.dirs.contains_key(h) implies t.dirs.contains_key(h)
        && t.dirs[h].inode == s.dirs[h].inode && t.dirs[h].snapshot == u.dirs[h].snapshot && (
    lists_one_of(s.nodes, s.dirs[h], both) <==> dir_open_at(s, h, dir) || dir_open_at(
        s,
        h,
        path,
    )) by {}
}

/// A listing counts as empty for a removal when it names nothing but `.` and `..`. A
/// name that the guest can see keeps the directory; one that it cannot see is an error.
pub proof fn only_empty_directories_are_removed(entries: &[VDirEntry], r: Result<(), FsError>)
    requires
        call_ensures(check_dir_empty_for_rmdir, (entries,), r),
    ensures
        r is Ok <==> forall|i: int|
            0 <= i < entries@.len() ==> (#[trigger] entries@[i]).name@ == seq![46u8]
                || entries@[i].name@ == seq![46u8, 46u8],
        (exists|i: int| 0 <= i < entries@.len() && proper_name((#[trigger] entries@[i]).name@))
            ==> r == Err::<(), FsError>(FsError::Os(39)),
        r is Err && !(exists|i: int|
            0 <= i < entries@.len() && proper_name((#[trigger] entries@[i]).name@)) ==> r == Err::<
            (),
            FsError,
        >(FsError::Os(5)),
{
    let listed = entry_views(entries@);
    assert(dot() =~= seq![46u8]);
    assert(dotdot() =~= seq![46u8, 46u8]);
    assert forall|i: int| 0 <= i < entries@.len() implies listed[i].name == (
    #[trigger] entries@[i]).name@ && (readdir_name_check(
        listed[i].name,
    ) is Ok <==> proper_name(listed[i].name)) by {
        lemma_readdir_name(listed[i].name);
    }
    if exists|i: int| 0 <= i < entries@.len() && proper_name((#[trigger] entries@[i]).name@) {
        let i = choose|i: int|
            0 <= i < entries@.len() && proper_name((#[trigger] entries@[i]).name@);
        assert(readdir_name_check(listed[i].name) is Ok);
    }
    if r is Ok {
        assert forall|i: int| 0 <= i < entries@.len() implies (#[trigger] entries@[i]).name@
            == seq![46u8] || entries@[i].name@ == seq![46u8, 46u8] by {
            let name = listed[i].name;
            assert(readdir_name_check(name) is Err);
        }
    }
}

/// The paths of a rename are those that its two names lead to, each in its own
/// directory.
pub proof fn renames_go_from_name_to_name<P: PathFs>(
    fs: VirtualFs<P>,
    olddir: u64,
    oldname: &[u8],
    from: Seq<u8>,
    newdir: u64,
    newname: &[u8],
    to: Seq<u8>,
    r: Result<(Vec<u8>, Vec<u8>), FsError>,
)
    requires
        consistent(fs@),
        call_ensures(VirtualFs::<P>::resolve_rename, (&fs, olddir, oldname, newdir, newname), r),
    ensures
        child_at(fs@, olddir, oldname@, from) && child_at(fs@, newdir, newname@, to) ==> r is Ok
            && r->Ok_0.0@ == from && r->Ok_0.1@ == to,
        r matches Ok(p) ==> child_at(fs@, olddir, oldname@, p.0@) && child_at(
            fs@,
            newdir,
            newname@,
            p.1@,
        ),
{
    if child_at(fs@, olddir, oldname@, from) && child_at(fs@, newdir, newname@, to) {
        lemma_child(fs@, olddir, oldname@, from);
        lemma_child(fs@, newdir, newname@, to);
        lemma_names_child(fs@.nodes[olddir].path, oldname@, from);
        lemma_names_child(fs@.nodes[newdir].path, newname@, to);
    }
    if let Ok(p) = r {
        lemma_resolved(fs@, olddir, oldname@, p.0@);
        lemma_resolved(fs@, newdir, newname@, p.1@);
    }
}

/// Resolving both names of a rename is resolving each of them: it succeeds exactly where
/// both do, with their paths.
pub proof fn rename_paths_are_child_paths(
    s: FsState,
    olddir: u64,
    oldname: Seq<u8>,
    newdir: u64,
    newname: Seq<u8>,
)
    ensures
        rename_paths(s, olddir, oldname, newdir, newname) is Ok <==> child_lookup(
            s,
            olddir,
            oldname,
        ) is Ok && child_lookup(s, newdir, newname) is Ok,
        rename_paths(s, olddir, oldname, newdir, newname) matches Ok(p) ==> child_lookup(
            s,
            olddir,
            oldname,
        ) == Ok::<Seq<u8>, FsError>(p.0) && child_lookup(s, newdir, newname) == Ok::<
            Seq<u8>,
            FsError,
        >(p.1),
{
}

/// Whether `path` is `base` or continues it behind a separator.
pub open spec fn under(path: Seq<u8>, base: Seq<u8>) -> bool {
    path == base || (path.len() > base.len() && path.take(base.len() as int) == base && path[
    base.len() as int] == 47)
}

/// Where a node ends up when `from` is renamed to `to`: it moves along with the part of
/// its path that it shares with `from`, loses its name where the move overwrites it, and
/// stays otherwise. A node that loses its name is gone where the guest does not
/// reference it.
pub open spec fn moved(s: FsState, from: Seq<u8>, to: Seq<u8>, t: FsState) -> bool {
    &&& forall|i: u64| #[trigger] t.nodes.contains_key(i) ==> s.nodes.contains_key(i)
    &&& forall|i: u64| #[trigger]
        s.nodes.contains_key(i) ==> {
            let p = s.nodes[i].path;
            if under(p, from) {
                &&& t.nodes.contains_key(i)
                &&& t.nodes[i].path == to + p.skip(from.len() as int)
                &&& t.nodes[i].refs == s.nodes[i].refs
            } else if under(p, to) {
                &&& t.nodes.contains_key(i) <==> s.nodes[i].refs > 0
                &&& s.nodes[i].refs > 0 ==> t.nodes[i].refs == s.nodes[i].refs
                    && t.nodes[i].path.len() > 0 && t.nodes[i].path[0] != 47
            } else {
                &&& t.nodes.contains_key(i)
                &&& t.nodes[i] == s.nodes[i]
            }
        }
    &&& t.next_inode == s.next_inode
    &&& t.next_handle == s.next_handle
}

/// Whether the open files follow a move: those on a moved node go on under its new
/// path, and those on nodes outside of it where they were.
pub open spec fn files_follow(s: FsState, from: Seq<u8>, to: Seq<u8>, t: FsState) -> bool {
    forall|h: u64, q: Seq<u8>| #[trigger]
        open_at(s, h, q) ==> {
            let last = s.nodes[s.files[h].inode].path;
            if s.files[h].orphan is None && under(last, from) {
                open_at(t, h, to + last.skip(from.len() as int))
            } else if s.files[h].orphan is None && under(last, to) {
                t.files.contains_key(h)
            } else {
                open_at(t, h, q)
            }
        }
}

/// Whether the open directories stay open, and those are listed afresh that are, by
/// their path after the move, one of the two directories that the names stand in, or at
/// or under the new name. No other is.
pub open spec fn listings_follow(
    s: FsState,
    fromdir: Seq<u8>,
    todir: Seq<u8>,
    to: Seq<u8>,
    t: FsState,
) -> bool {
    &&& forall|h: u64| #[trigger] t.dirs.contains_key(h) <==> s.dirs.contains_key(h)
    &&& forall|h: u64, p: Seq<u8>| #[trigger]
        dir_open_at(t, h, p) && p.len() > 0 && p[0] == 47 ==> {
            &&& t.dirs[h].inode == s.dirs[h].inode
            &&& t.dirs[h].snapshot == (if p == fromdir || p == todir || under(p, to) {
                None
            } else {
                s.dirs[h].snapshot
            })
        }
}

/// Being under a path that is not the root.
proof fn lemma_under(path: Seq<u8>, base: Seq<u8>)
    requires
        base.len() > 1,
    ensures
        under(path, base) <==> at_or_under(path, base),
{
    assert(root().len() == 1);
    if path == base {
        assert(path.take(base.len() as int) =~= base);
    }
    if at_or_under(path, base) && path.len() == base.len() {
        assert(path.take(base.len() as int) =~= path);
    }
}

/// What a rename does to the tables.
proof fn lemma_renamed(
    s: FsState,
    olddir: u64,
    oldname: Seq<u8>,
    from: Seq<u8>,
    newdir: u64,
    newname: Seq<u8>,
    to: Seq<u8>,
)
    requires
        child_at(s, olddir, oldname, from),
        child_at(s, newdir, newname, to),
    ensures
        moved(s, from, to, renamed(s, from, to)),
        files_follow(s, from, to, renamed(s, from, to)),
        listings_follow(
            s,
            s.nodes[olddir].path,
            s.nodes[newdir].path,
            to,
            renamed(s, from, to),
        ),
{
    lemma_child(s, olddir, oldname, from);
    lemma_child(s, newdir, newname, to);
    lemma_listed_afresh(s, olddir, oldname, from);
    lemma_listed_afresh(s, newdir, newname, to);
    let u = remapped(s, from, to);
    let t = renamed(s, from, to);
    renaming_keeps_consistency(s, from, to);
    relisting_keeps_consistency(u, renamed_listings(from, to));
    assert forall|i: u64| #[trigger] s.nodes.contains_key(i) implies (under(s.nodes[i].path, from)
        <==> at_or_under(s.nodes[i].path, from)) && (under(s.nodes[i].path, to) <==> at_or_under(
        s.nodes[i].path,
        to,
    )) && tombstone(i).len() > 0 && tombstone(i)[0] == 0 by {
        lemma_under(s.nodes[i].path, from);
        lemma_under(s.nodes[i].path, to);
    }
    assert forall|h: u64, q: Seq<u8>| #[trigger] open_at(s, h, q) implies {
        let last = s.nodes[s.files[h].inode].path;
        if s.files[h].orphan is None && under(last, from) {
            open_at(t, h, to + last.skip(from.len() as int))
        } else if s.files[h].orphan is None && under(last, to) {
            t.files.contains_key(h)
        } else {
            open_at(t, h, q)
        }
    } by {
        let ino = s.files[h].inode;
        assert(t.files.contains_key(h));
        if s.files[h].orphan is None {
            assert(s.nodes.contains_key(ino));
            assert(t.files[h] == s.files[h] || under(s.nodes[ino].path, to));
            if under(s.nodes[ino].path, from) {
                let new = to + s.nodes[ino].path.skip(from.len() as int);
                assert(new[0] == to[0]);
            }
        }
    }
    assert forall|h: u64, p: Seq<u8>| #[trigger]
        dir_open_at(t, h, p) && p.len() > 0 && p[0] == 47 implies {
        &&& t.dirs[h].inode == s.dirs[h].inode
        &&& t.dirs[h].snapshot == (if p == s.nodes[olddir].path || p == s.nodes[newdir].path
            || under(p, to) {
            None
        } else {
            s.dirs[h].snapshot
        })
    } by {
        lemma_under(p, to);
        assert(u.dirs[h].inode == t.dirs[h].inode && u.dirs[h].orphan == t.dirs[h].orphan);
        assert(u.dirs[h].snapshot == s.dirs[h].snapshot);
        assert(lists_one_of(u.nodes, u.dirs[h], renamed_listings(from, to))
            <==> renamed_listings(from, to).contains(p));
    }
}

/// Every answer to a rename of `from` to `to` with these flags is `reply`.
pub open spec fn rename_is<P: PathFs>(
    p: P,
    from: Seq<u8>,
    to: Seq<u8>,
    flags: u32,
    reply: Result<(), FsError>,
) -> bool {
    forall|f: &[u8], t: &[u8], a: Result<(), FsError>|
        f@ == from && t@ == to && #[trigger] call_ensures(
            P::rename_with_flags,
            (&p, f, t, flags),
            a,
        ) ==> a == reply
}

/// Renaming asks the provider to move the path of the old name to the path of the new
/// one, with the flags. On success every node of the subtree is found under the new
/// name, with the inode that it had; what was there before has lost its name; everything
/// else stays. Renaming something to itself does nothing, and nothing moves into itself.
pub proof fn renaming_moves_the_subtree<P: PathFs>(
    before: VirtualFs<P>,
    olddir: u64,
    oldname: &[u8],
    from: Seq<u8>,
    newdir: u64,
    newname: &[u8],
    to: Seq<u8>,
    flags: u32,
    reply: Result<(), FsError>,
    after: VirtualFs<P>,
    r: Result<(), FsError>,
)
    requires
        child_at(before@, olddir, oldname@, from),
        child_at(before@, newdir, newname@, to),
        rename_is(before.backend(), from, to, flags, reply),
        exists|fs: &mut VirtualFs<P>|
            *fs == before && *final(fs) == after && #[trigger] call_ensures(
                VirtualFs::<P>::do_rename,
                (fs, olddir, oldname, newdir, newname, flags),
                r,
            ),
    ensures
        after.same_setup(&before),
        if flags == 2 {
            r == Err::<(), FsError>(FsError::Os(38)) && after@ == before@
        } else if flags > 1 {
            r == Err::<(), FsError>(FsError::Os(22)) && after@ == before@
        } else if from == to {
            r == Ok::<(), FsError>(()) && after@ == before@
        } else if under(to, from) {
            r == Err::<(), FsError>(FsError::Os(22)) && after@ == before@
        } else {
            &&& r == reply
            &&& reply is Err ==> after@ == before@
            &&& reply is Ok ==> {
                &&& moved(before@, from, to, after@)
                &&& files_follow(before@, from, to, after@)
                &&& listings_follow(
                    before@,
                    before@.nodes[olddir].path,
                    before@.nodes[newdir].path,
                    to,
                    after@,
                )
            }
        },
{
    lemma_child(before@, olddir, oldname@, from);
    lemma_child(before@, newdir, newname@, to);
    lemma_names_child(before@.nodes[olddir].path, oldname@, from);
    lemma_names_child(before@.nodes[newdir].path, newname@, to);
    lemma_rename_flags(flags);
    lemma_under(to, from);
    lemma_renamed(before@, olddir, oldname@, from, newdir, newname@, to);
    assert(rename_paths(before@, olddir, oldname@, newdir, newname@) == Ok::<
        (Seq<u8>, Seq<u8>),
        FsError,
    >((from, to)));
}

/// The verdict on rename flags, flag by flag.
pub proof fn lemma_rename_flags(flags: u32)
    ensures
        rename_flags_check(flags) == (if flags == 2 {
            Err::<(), FsError>(FsError::Os(38))
        } else if flags > 1 {
            Err(FsError::Os(22))
        } else {
            Ok(())
        }),
{
    assert(flags & !(1u32 | 2u32) != 0 <==> flags > 3) by (bit_vector);
    assert(flags <= 3 ==> (flags & 1 != 0 <==> flags == 1 || flags == 3) && (flags & 2 != 0
        <==> flags == 2 || flags == 3)) by (bit_vector);
}

/// No flags and "do not replace" are supported, "exchange" is not, and nothing else is
/// known.
pub proof fn rename_flags_are_known(flags: u32, r: Result<(), FsError>)
    requires
        call_ensures(check_rename_flags, (flags,), r),
    ensures
        r == (if flags == 2 {
            Err::<(), FsError>(FsError::Os(38))
        } else if flags > 1 {
            Err(FsError::Os(22))
        } else {
            Ok(())
        }),
{
    lemma_rename_flags(flags);
}

/// A name that is not proper, or in a directory that is not known, is refused by every
/// operation that takes one, and nothing changes.
pub proof fn unresolved_names_change_nothing<P: PathFs>(
    before: VirtualFs<P>,
    parent: u64,
    name: &[u8],
    target: &[u8],
    mode: u32,
    rdev: u32,
    umask: u32,
    unlink: (VirtualFs<P>, Result<(), FsError>),
    rmdir: (VirtualFs<P>, Result<(), FsError>),
    mkdir: (VirtualFs<P>, Result<Entry, FsError>),
    mknod: (VirtualFs<P>, Result<Entry, FsError>),
    symlink: (VirtualFs<P>, Result<Entry, FsError>),
    create: (VirtualFs<P>, Result<(Entry, Option<u64>, u32), FsError>),
)
    requires
        consistent(before@),
        forall|path: Seq<u8>| !#[trigger] child_at(before@, parent, name@, path),
        exists|fs: &mut VirtualFs<P>|
            *fs == before && *final(fs) == unlink.0 && #[trigger] call_ensures(
                VirtualFs::<P>::do_unlink,
                (fs, parent, name),
                unlink.1,
            ),
        exists|fs: &mut VirtualFs<P>|
            *fs == before && *final(fs) == rmdir.0 && #[trigger] call_ensures(
                VirtualFs::<P>::do_rmdir,
                (fs, parent, name),
                rmdir.1,
            ),
        exists|fs: &mut VirtualFs<P>|
            *fs == before && *final(fs) == mkdir.0 && #[trigger] call_ensures(
                VirtualFs::<P>::do_mkdir,
                (fs, parent, name, mode, umask),
                mkdir.1,
            ),
        exists|fs: &mut VirtualFs<P>|
            *fs == before && *final(fs) == mknod.0 && #[trigger] call_ensures(
                VirtualFs::<P>::do_mknod,
                (fs, parent, name, mode, rdev, umask),
                mknod.1,
            ),
        exists|fs: &mut VirtualFs<P>|
            *fs == before && *final(fs) == symlink.0 && #[trigger] call_ensures(
                VirtualFs::<P>::do_symlink,
                (fs, target, parent, name),
                symlink.1,
            ),
        exists|fs: &mut VirtualFs<P>|
            *fs == before && *final(fs) == create.0 && #[trigger] call_ensures(
                VirtualFs::<P>::do_create,
                (fs, parent, name, mode, umask),
                create.1,
            ),
    ensures
        ({
            let fault = FsError::Os(name_fault(before@, parent, name@));
            &&& unlink.1 == Err::<(), FsError>(fault) && unlink.0@ == before@
            &&& rmdir.1 == Err::<(), FsError>(fault) && rmdir.0@ == before@
            &&& mkdir.1 == Err::<Entry, FsError>(fault) && mkdir.0@ == before@
            &&& mknod.1 == Err::<Entry, FsError>(fault) && mknod.0@ == before@
            &&& symlink.1 == Err::<Entry, FsError>(fault) && symlink.0@ == before@
            &&& create.1 == Err::<(Entry, Option<u64>, u32), FsError>(fault) && create.0@
                == before@
        }),
{
    lemma_name_fault(before@, parent, name@);
    if let Ok(path) = child_lookup(before@, parent, name@) {
        lemma_resolved(before@, parent, name@, path);
    }
}

/// What is wrong with the names of a rename: first both names, then both directories, then
/// both paths, the old one before the new one each time.
pub open spec fn rename_fault(
    s: FsState,
    olddir: u64,
    oldname: Seq<u8>,
    newdir: u64,
    newname: Seq<u8>,
) -> i32 {
    if label_fault(oldname) != 0 {
        label_fault(oldname)
    } else if label_fault(newname) != 0 {
        label_fault(newname)
    } else if inode_fault(s, olddir) != 0 {
        inode_fault(s, olddir)
    } else if inode_fault(s, newdir) != 0 {
        inode_fault(s, newdir)
    } else if path_fault(s.nodes[olddir].path, oldname) != 0 {
        path_fault(s.nodes[olddir].path, oldname)
    } else {
        path_fault(s.nodes[newdir].path, newname)
    }
}

/// A rename whose names cannot both be resolved is refused, and nothing changes.
pub proof fn unresolved_renames_change_nothing<P: PathFs>(
    before: VirtualFs<P>,
    olddir: u64,
    oldname: &[u8],
    newdir: u64,
    newname: &[u8],
    flags: u32,
    after: VirtualFs<P>,
    r: Result<(), FsError>,
)
    requires
        consistent(before@),
        (forall|path: Seq<u8>| !#[trigger] child_at(before@, olddir, oldname@, path)) || (forall|
            path: Seq<u8>,
        |
            !#[trigger] child_at(before@, newdir, newname@, path)),
        exists|fs: &mut VirtualFs<P>|
            *fs == before && *final(fs) == after && #[trigger] call_ensures(
                VirtualFs::<P>::do_rename,
                (fs, olddir, oldname, newdir, newname, flags),
                r,
            ),
    ensures
        r is Err,
        after@ == before@,
        flags == 0 || flags == 1 ==> r == Err::<(), FsError>(
            FsError::Os(rename_fault(before@, olddir, oldname@, newdir, newname@)),
        ),
{
    lemma_label_fault(oldname@);
    lemma_label_fault(newname@);
    lemma_inode_fault(before@, olddir);
    lemma_inode_fault(before@, newdir);
    if label_fault(oldname@) == 0 && label_fault(newname@) == 0 && inode_fault(before@, olddir) == 0
        && inode_fault(before@, newdir) == 0 {
        lemma_path_fault(before@.nodes[olddir].path, oldname@);
        lemma_path_fault(before@.nodes[newdir].path, newname@);
    }
    lemma_rename_flags(flags);
    assert(0u32 & 2 == 0 && 0u32 & 1 == 0 && 1u32 & 2 == 0) by (bit_vector);
    if let Ok(p) = rename_paths(before@, olddir, oldname@, newdir, newname@) {
        lemma_resolved(before@, olddir, oldname@, p.0);
        lemma_resolved(before@, newdir, newname@, p.1);
    }
}

} // verus!
