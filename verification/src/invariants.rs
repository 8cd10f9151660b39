//! What holds of the tables in every state: the two ways to name a node agree,
//! handles keep their nodes, and the root stays.

use crate::abi::DirEntryV;
use crate::bytes::{dot, dotdot, root};
use crate::dirent::{child_rows, listing_rows, numbered_from_one, own_inode, snapshot_of};
use crate::name_validation::readdir_name_check;
use crate::paging::{all_pages, paging_returns_every_entry_once};
use crate::path_fs::VDirEntryV;
use crate::paths::{
    at_or_under, lemma_shaped_moved, shaped, tombstone, tombstoned, tombstones_are_private,
};
use crate::tables::{
    detached, dir_opened, dropped_by_rename, evicted, file_opened, forgotten, initial_state,
    inode_at, io_path, is_at, lemma_inode_at, lemma_inode_at_some, lists_one_of,
    referenced, referenced_inode, relisted, remapped, renamed_path, snapshot_set, FsState, NodeV,
    ROOT_INODE,
};
use vstd::prelude::*;

verus! {

/// No two nodes have the same path, so that a path names at most one inode.
pub open spec fn paths_distinct(nodes: Map<u64, NodeV>) -> bool {
    forall|i: u64, j: u64|
        #![trigger nodes[i], nodes[j]]
        nodes.contains_key(i) && nodes.contains_key(j) && nodes[i].path == nodes[j].path ==> i == j
}

/// Every node has a path of the shape of a guest path, or its own tombstone.
pub open spec fn paths_proper(nodes: Map<u64, NodeV>) -> bool {
    forall|i: u64| #[trigger]
        nodes.contains_key(i) ==> shaped(nodes[i].path) || nodes[i].path == tombstone(i)
}

/// The node of every handle is in the table, unless the handle carries the last
/// path of the node itself.
pub open spec fn handles_held(s: FsState) -> bool {
    &&& forall|h: u64| #[trigger]
        s.files.contains_key(h) && s.files[h].orphan is None ==> s.nodes.contains_key(
            s.files[h].inode,
        )
    &&& forall|h: u64| #[trigger]
        s.dirs.contains_key(h) && s.dirs[h].orphan is None ==> s.nodes.contains_key(
            s.dirs[h].inode,
        )
}

/// Every file handle was opened under a path of the shape of a guest path, and
/// what it carries of a node that has left the table is such a path or a
/// tombstone.
pub open spec fn handle_paths_proper(s: FsState) -> bool {
    forall|h: u64| #[trigger]
        s.files.contains_key(h) ==> shaped(s.files[h].path) && (s.files[h].orphan matches Some(p)
            ==> shaped(p) || tombstoned(p))
}

/// Whether a snapshot numbers its cookies from one and holds no name but `.`,
/// `..` and valid ones.
pub open spec fn snapshot_proper(entries: Seq<DirEntryV>) -> bool {
    &&& numbered_from_one(entries)
    &&& names_proper(entries)
}

/// Whether the names of a listing are `.`, `..` or valid ones.
pub open spec fn names_proper(entries: Seq<DirEntryV>) -> bool {
    forall|i: int|
        0 <= i < entries.len() ==> {
            ||| (#[trigger] entries[i]).name == dot()
            ||| entries[i].name == dotdot()
            ||| readdir_name_check(entries[i].name) is Ok
        }
}

/// Every snapshot is a proper one.
pub open spec fn snapshots_proper(s: FsState) -> bool {
    forall|h: u64| #[trigger]
        s.dirs.contains_key(h) ==> (s.dirs[h].snapshot matches Some(entries) ==> snapshot_proper(
            entries,
        ))
}

/// The inode index and the path index agree, no path leads out of the tree,
/// handles keep their nodes, and snapshots can be paged through.
pub open spec fn consistent(s: FsState) -> bool {
    &&& paths_distinct(s.nodes)
    &&& paths_proper(s.nodes)
    &&& handles_held(s)
    &&& handle_paths_proper(s)
    &&& snapshots_proper(s)
}

/// The root is in the table, at its path.
pub open spec fn rooted(s: FsState) -> bool {
    is_at(s.nodes, ROOT_INODE, root())
}

/// Every inode in use lies below the next one to allocate, which is above the
/// root: no number is handed out twice.
pub open spec fn numbered(s: FsState) -> bool {
    &&& ROOT_INODE < s.next_inode
    &&& forall|i: u64| #[trigger] s.nodes.contains_key(i) ==> i < s.next_inode
}

/// Every open handle lies below the next one to hand out: no handle is given to
/// two openers.
pub open spec fn handles_numbered(s: FsState) -> bool {
    &&& forall|h: u64| #[trigger] s.files.contains_key(h) ==> h < s.next_handle
    &&& forall|h: u64| #[trigger] s.dirs.contains_key(h) ==> h < s.next_handle
}

/// What every operation keeps: consistent tables stay consistent, unless the
/// inode numbers run out no number is handed out twice and the root stays, and
/// unless the handles run out no handle is handed out twice.
pub open spec fn kept(s: FsState, t: FsState) -> bool {
    consistent(s) ==> {
        &&& consistent(t)
        &&& numbered(s) && s.next_inode <= t.next_inode ==> {
            &&& numbered(t)
            &&& rooted(s) ==> rooted(t)
        }
        &&& handles_numbered(s) && s.next_handle <= t.next_handle ==> handles_numbered(t)
    }
}

/// A fresh file system is consistent.
pub proof fn initial_state_is_consistent()
    ensures
        consistent(initial_state()),
        rooted(initial_state()),
        numbered(initial_state()),
        handles_numbered(initial_state()),
{
}

/// In a consistent state, the inode at a path is *the* node with that path.
pub proof fn a_path_names_one_inode(s: FsState, ino: u64)
    requires
        consistent(s),
        s.nodes.contains_key(ino),
    ensures
        inode_at(s.nodes, s.nodes[ino].path) == Some(ino),
{
    let path = s.nodes[ino].path;
    assert forall|j: u64| #[trigger] is_at(s.nodes, j, path) implies ino <= j by {
        assert(s.nodes[j].path == s.nodes[ino].path);
    }
    lemma_inode_at(s.nodes, ino, path);
}

/// Evicting a node keeps the tables consistent.
pub proof fn eviction_keeps_consistency(s: FsState, ino: u64)
    requires
        consistent(s),
    ensures
        consistent(evicted(s, ino)),
        rooted(s) && ino != ROOT_INODE ==> rooted(evicted(s, ino)),
        numbered(s) ==> numbered(evicted(s, ino)),
        handles_numbered(s) ==> handles_numbered(evicted(s, ino)),
{
    let t = evicted(s, ino);
    assert forall|i: u64, j: u64|
        #![trigger t.nodes[i], t.nodes[j]]
        t.nodes.contains_key(i) && t.nodes.contains_key(j) && t.nodes[i].path
            == t.nodes[j].path implies i == j by {
        assert(s.nodes[i] == t.nodes[i] && s.nodes[j] == t.nodes[j]);
    }
    assert forall|i: u64| #[trigger] t.nodes.contains_key(i) implies shaped(t.nodes[i].path)
        || t.nodes[i].path == tombstone(i) by {
        assert(s.nodes.contains_key(i));
    }
    assert forall|h: u64| #[trigger]
        t.files.contains_key(h) && t.files[h].orphan is None implies t.nodes.contains_key(
        t.files[h].inode,
    ) by {
        assert(s.files.contains_key(h));
    }
    assert forall|h: u64| #[trigger] t.files.contains_key(h) implies shaped(t.files[h].path) && (
    t.files[h].orphan matches Some(p) ==> shaped(p) || tombstoned(p)) by {
        assert(s.files.contains_key(h));
        if s.nodes.contains_key(s.files[h].inode) {
            tombstones_are_private(Seq::empty(), s.files[h].inode, s.files[h].inode);
        }
    }
    assert forall|h: u64| #[trigger]
        t.dirs.contains_key(h) && t.dirs[h].orphan is None implies t.nodes.contains_key(
        t.dirs[h].inode,
    ) by {
        assert(s.dirs.contains_key(h));
    }
    assert forall|h: u64| #[trigger] t.dirs.contains_key(h) implies (
    t.dirs[h].snapshot matches Some(entries) ==> snapshot_proper(entries)) by {
        assert(s.dirs.contains_key(h));
    }
}

/// Giving a node a path of its own keeps the tables consistent.
proof fn lemma_node_put(s: FsState, ino: u64, node: NodeV, t: FsState)
    requires
        consistent(s),
        shaped(node.path) || node.path == tombstone(ino),
        forall|j: u64| #[trigger] is_at(s.nodes, j, node.path) ==> j == ino,
        t == (FsState { nodes: s.nodes.insert(ino, node), next_inode: t.next_inode, ..s }),
    ensures
        consistent(t),
{
    assert forall|i: u64, j: u64|
        #![trigger t.nodes[i], t.nodes[j]]
        t.nodes.contains_key(i) && t.nodes.contains_key(j) && t.nodes[i].path
            == t.nodes[j].path implies i == j by {
        if i == ino && j != ino {
            assert(is_at(s.nodes, j, node.path));
        } else if i != ino && j == ino {
            assert(is_at(s.nodes, i, node.path));
        } else if i != ino {
            assert(s.nodes[i].path == s.nodes[j].path);
        }
    }
    assert forall|i: u64| #[trigger] t.nodes.contains_key(i) implies shaped(t.nodes[i].path)
        || t.nodes[i].path == tombstone(i) by {
        if i != ino {
            assert(s.nodes.contains_key(i));
        }
    }
    assert forall|h: u64| #[trigger]
        t.files.contains_key(h) && t.files[h].orphan is None implies t.nodes.contains_key(
        t.files[h].inode,
    ) by {
        assert(s.files.contains_key(h));
    }
    assert forall|h: u64| #[trigger] t.files.contains_key(h) implies shaped(t.files[h].path) && (
    t.files[h].orphan matches Some(p) ==> shaped(p) || tombstoned(p)) by {
        assert(s.files.contains_key(h));
    }
    assert forall|h: u64| #[trigger]
        t.dirs.contains_key(h) && t.dirs[h].orphan is None implies t.nodes.contains_key(
        t.dirs[h].inode,
    ) by {
        assert(s.dirs.contains_key(h));
    }
    assert forall|h: u64| #[trigger] t.dirs.contains_key(h) implies (
    t.dirs[h].snapshot matches Some(entries) ==> snapshot_proper(entries)) by {
        assert(s.dirs.contains_key(h));
    }
}

/// A node at `path` other than the one named leads to a contradiction.
proof fn lemma_only_one(s: FsState, path: Seq<u8>)
    requires
        consistent(s),
    ensures
        forall|j: u64| #[trigger]
            is_at(s.nodes, j, path) ==> inode_at(s.nodes, path) == Some(j),
        inode_at(s.nodes, path) matches Some(i) ==> is_at(s.nodes, i, path),
{
    assert forall|j: u64| #[trigger] is_at(s.nodes, j, path) implies inode_at(s.nodes, path)
        == Some(j) by {
        a_path_names_one_inode(s, j);
    }
    if exists|i: u64| #[trigger] is_at(s.nodes, i, path) {
        let i = choose|i: u64| #[trigger] is_at(s.nodes, i, path);
        lemma_inode_at_some(s.nodes, i, path);
    }
}

/// Taking a lookup reference keeps the tables consistent. While there are
/// numbers left, no number is handed out twice and the root stays.
pub proof fn referencing_keeps_consistency(s: FsState, path: Seq<u8>)
    requires
        consistent(s),
        shaped(path),
    ensures
        consistent(referenced(s, path)),
        referenced(s, path).nodes.contains_key(referenced_inode(s, path)),
        referenced(s, path).nodes[referenced_inode(s, path)].path == path,
        rooted(s) && numbered(s) ==> rooted(referenced(s, path)),
        numbered(s) && s.next_inode < u64::MAX ==> numbered(referenced(s, path)),
        handles_numbered(s) ==> handles_numbered(referenced(s, path)),
{
    lemma_only_one(s, path);
    match inode_at(s.nodes, path) {
        Some(i) => {
            let node = NodeV { refs: s.nodes[i].refs.wrapping_add(1), ..s.nodes[i] };
            lemma_node_put(s, i, node, referenced(s, path));
        },
        None => {
            let e = evicted(s, s.next_inode);
            eviction_keeps_consistency(s, s.next_inode);
            let node = NodeV { path, refs: 1 };
            assert forall|j: u64| #[trigger] is_at(e.nodes, j, path) implies j
                == s.next_inode by {
                assert(is_at(s.nodes, j, path));
            }
            lemma_node_put(e, s.next_inode, node, referenced(s, path));
        },
    }
}

/// Giving up lookup references keeps the tables consistent, and never evicts the
/// root.
pub proof fn forgetting_keeps_consistency(s: FsState, ino: u64, count: u64)
    requires
        consistent(s),
    ensures
        consistent(forgotten(s, ino, count)),
        rooted(s) ==> rooted(forgotten(s, ino, count)),
        numbered(s) ==> numbered(forgotten(s, ino, count)),
        handles_numbered(s) ==> handles_numbered(forgotten(s, ino, count)),
{
    let t = forgotten(s, ino, count);
    if ino != ROOT_INODE && s.nodes.contains_key(ino) {
        if s.nodes[ino].refs <= count {
            eviction_keeps_consistency(s, ino);
        } else {
            assert forall|j: u64| #[trigger] is_at(s.nodes, j, s.nodes[ino].path) implies j
                == ino by {
                assert(s.nodes[j].path == s.nodes[ino].path);
            }
            lemma_node_put(s, ino, t.nodes[ino], t);
        }
    }
}

/// Taking a name away keeps the tables consistent: afterwards no inode is at
/// that path.
pub proof fn detaching_keeps_consistency(s: FsState, path: Seq<u8>)
    requires
        consistent(s),
        shaped(path),
    ensures
        consistent(detached(s, path)),
        inode_at(detached(s, path).nodes, path) is None,
        rooted(s) && path != root() ==> rooted(detached(s, path)),
        numbered(s) ==> numbered(detached(s, path)),
        handles_numbered(s) ==> handles_numbered(detached(s, path)),
{
    lemma_only_one(s, path);
    let t = detached(s, path);
    if let Some(i) = inode_at(s.nodes, path) {
        tombstones_are_private(path, i, i);
        if s.nodes[i].refs == 0 {
            eviction_keeps_consistency(s, i);
        } else {
            assert forall|j: u64| #[trigger] is_at(s.nodes, j, tombstone(i)) implies j == i by {
                tombstones_are_private(s.nodes[j].path, i, j);
            }
            lemma_node_put(s, i, t.nodes[i], t);
        }
        assert forall|j: u64| !#[trigger] is_at(t.nodes, j, path) by {
            if is_at(t.nodes, j, path) {
                assert(is_at(s.nodes, j, path));
            }
        }
    }
}

/// A moved path is at or under the new name, and determines the path it had.
proof fn lemma_moved(p: Seq<u8>, q: Seq<u8>, from: Seq<u8>, to: Seq<u8>)
    requires
        from != root(),
        at_or_under(p, from),
        at_or_under(q, from),
    ensures
        at_or_under(to + p.skip(from.len() as int), to),
        to + p.skip(from.len() as int) == to + q.skip(from.len() as int) ==> p == q,
{
    let a = to + p.skip(from.len() as int);
    let b = to + q.skip(from.len() as int);
    assert(a.take(to.len() as int) =~= to);
    if a == b {
        assert(a.skip(to.len() as int) =~= p.skip(from.len() as int));
        assert(b.skip(to.len() as int) =~= q.skip(from.len() as int));
        assert(p =~= p.take(from.len() as int) + p.skip(from.len() as int));
        assert(q =~= q.take(from.len() as int) + q.skip(from.len() as int));
    }
}

/// Renaming keeps the tables consistent: no two nodes end up at one path.
pub proof fn renaming_keeps_consistency(s: FsState, from: Seq<u8>, to: Seq<u8>)
    requires
        consistent(s),
        shaped(from),
        shaped(to),
        from.len() > 1,
        to.len() > 1,
    ensures
        consistent(remapped(s, from, to)),
        rooted(s) ==> rooted(remapped(s, from, to)),
        numbered(s) ==> numbered(remapped(s, from, to)),
        handles_numbered(s) ==> handles_numbered(remapped(s, from, to)),
{
    let t = remapped(s, from, to);
    assert forall|i: u64, j: u64|
        #![trigger t.nodes[i], t.nodes[j]]
        t.nodes.contains_key(i) && t.nodes.contains_key(j) && t.nodes[i].path
            == t.nodes[j].path implies i == j by {
        let p = s.nodes[i].path;
        let q = s.nodes[j].path;
        assert(t.nodes[i].path == renamed_path(i, p, from, to));
        assert(t.nodes[j].path == renamed_path(j, q, from, to));
        tombstones_are_private(p, i, j);
        tombstones_are_private(q, i, j);
        tombstones_are_private(to + p.skip(from.len() as int), j, i);
        tombstones_are_private(to + q.skip(from.len() as int), i, j);
        if at_or_under(p, from) && at_or_under(q, from) {
            lemma_moved(p, q, from, to);
        } else if at_or_under(p, from) {
            lemma_moved(p, p, from, to);
        } else if at_or_under(q, from) {
            lemma_moved(q, q, from, to);
        }
    }
    assert forall|i: u64| #[trigger] t.nodes.contains_key(i) implies shaped(t.nodes[i].path)
        || t.nodes[i].path == tombstone(i) by {
        assert(s.nodes.contains_key(i));
        tombstones_are_private(from, i, i);
        if at_or_under(s.nodes[i].path, from) {
            assert(s.nodes[i].path.take(from.len() as int)[0] == s.nodes[i].path[0]);
            lemma_shaped_moved(s.nodes[i].path, from, to);
        }
    }
    assert forall|h: u64| #[trigger]
        t.files.contains_key(h) && t.files[h].orphan is None implies t.nodes.contains_key(
        t.files[h].inode,
    ) by {
        assert(s.files.contains_key(h));
    }
    assert forall|h: u64| #[trigger] t.files.contains_key(h) implies shaped(t.files[h].path) && (
    t.files[h].orphan matches Some(p) ==> shaped(p) || tombstoned(p)) by {
        assert(s.files.contains_key(h));
        if s.nodes.contains_key(s.files[h].inode) {
            tombstones_are_private(Seq::empty(), s.files[h].inode, s.files[h].inode);
        }
    }
    assert forall|h: u64| #[trigger]
        t.dirs.contains_key(h) && t.dirs[h].orphan is None implies t.nodes.contains_key(
        t.dirs[h].inode,
    ) by {
        assert(s.dirs.contains_key(h));
    }
    assert forall|h: u64| #[trigger] t.dirs.contains_key(h) implies (
    t.dirs[h].snapshot matches Some(entries) ==> snapshot_proper(entries)) by {
        assert(s.dirs.contains_key(h));
    }
}

/// Dropping snapshots keeps the tables consistent.
pub proof fn relisting_keeps_consistency(s: FsState, paths: Set<Seq<u8>>)
    requires
        consistent(s),
    ensures
        consistent(relisted(s, paths)),
        rooted(s) ==> rooted(relisted(s, paths)),
        numbered(s) ==> numbered(relisted(s, paths)),
        handles_numbered(s) ==> handles_numbered(relisted(s, paths)),
{
    let t = relisted(s, paths);
    assert forall|h: u64| #[trigger]
        t.dirs.contains_key(h) && t.dirs[h].orphan is None implies t.nodes.contains_key(
        t.dirs[h].inode,
    ) by {
        assert(s.dirs.contains_key(h));
    }
    assert forall|h: u64| #[trigger] t.dirs.contains_key(h) implies (
    t.dirs[h].snapshot matches Some(entries) ==> snapshot_proper(entries)) by {
        assert(s.dirs.contains_key(h));
    }
}

/// After a directory changed, every handle on it is listed afresh, and no other
/// handle is touched.
pub proof fn changed_directories_are_listed_afresh(
    s: FsState,
    paths: Set<Seq<u8>>,
    handle: u64,
)
    requires
        s.dirs.contains_key(handle),
    ensures
        relisted(s, paths).dirs.contains_key(handle),
        lists_one_of(s.nodes, s.dirs[handle], paths) ==> relisted(s, paths).dirs[handle].snapshot
            is None,
        !lists_one_of(s.nodes, s.dirs[handle], paths) ==> relisted(s, paths).dirs[handle]
            == s.dirs[handle],
{
}

/// The names of child lines are valid ones.
proof fn lemma_child_rows_proper(
    nodes: Map<u64, NodeV>,
    dir: Seq<u8>,
    children: Seq<VDirEntryV>,
)
    ensures
        forall|i: int|
            0 <= i < child_rows(nodes, dir, children).len() ==> readdir_name_check(
                (#[trigger] child_rows(nodes, dir, children)[i]).name,
            ) is Ok,
    decreases children.len(),
{
    if children.len() > 0 {
        lemma_child_rows_proper(nodes, dir, children.drop_last());
        let before = child_rows(nodes, dir, children.drop_last());
        let rows = child_rows(nodes, dir, children);
        assert forall|i: int| 0 <= i < rows.len() implies readdir_name_check(
            (#[trigger] rows[i]).name,
        ) is Ok by {
            if i < before.len() {
                assert(rows[i] == before[i]);
            }
        }
    }
}

/// Every snapshot that is built is a proper one.
pub proof fn built_snapshots_are_proper(
    nodes: Map<u64, NodeV>,
    ino: u64,
    dir: Seq<u8>,
    children: Seq<VDirEntryV>,
)
    requires
        snapshot_of(nodes, ino, dir, children).len() <= u64::MAX,
    ensures
        snapshot_proper(snapshot_of(nodes, ino, dir, children)),
{
    let rows = listing_rows(nodes, ino, dir, children);
    let entries = snapshot_of(nodes, ino, dir, children);
    lemma_child_rows_proper(nodes, dir, children);
    assert forall|i: int| 0 <= i < entries.len() implies {
        ||| (#[trigger] entries[i]).name == dot()
        ||| entries[i].name == dotdot()
        ||| readdir_name_check(entries[i].name) is Ok
    } by {
        if i >= 2 {
            assert(rows[i] == child_rows(nodes, dir, children)[i - 2]);
        }
    }
}

/// Opening a known node, closing a handle, and replacing a snapshot keep the
/// tables consistent.
pub proof fn handles_keep_consistency(
    s: FsState,
    ino: u64,
    path: Seq<u8>,
    handle: u64,
    snapshot: Option<Seq<DirEntryV>>,
)
    requires
        consistent(s),
    ensures
        s.nodes.contains_key(ino) && shaped(path) ==> consistent(file_opened(s, ino, path)),
        s.nodes.contains_key(ino) ==> consistent(dir_opened(s, ino)),
        s.dirs.contains_key(handle) && (snapshot matches Some(entries) ==> snapshot_proper(entries))
            ==> consistent(snapshot_set(s, handle, snapshot)),
        consistent(FsState { files: s.files.remove(handle), ..s }),
        consistent(FsState { dirs: s.dirs.remove(handle), ..s }),
{
}

/// A file that was opened is read and written at its path, and every handle that
/// was open before stays what it was.
pub proof fn fresh_handles_lead_to_their_path(s: FsState, ino: u64, path: Seq<u8>, other: u64)
    requires
        consistent(s),
        handles_numbered(s),
        is_at(s.nodes, ino, path),
        shaped(path),
    ensures
        !s.files.contains_key(s.next_handle) && !s.dirs.contains_key(s.next_handle),
        io_path(file_opened(s, ino, path), s.next_handle) == Some(path),
        other != s.next_handle ==> io_path(file_opened(s, ino, path), other) == io_path(s, other),
        s.files.contains_key(other) ==> file_opened(s, ino, path).files[other] == s.files[other],
        s.dirs.contains_key(other) ==> dir_opened(s, ino).dirs[other] == s.dirs[other],
{
    tombstones_are_private(path, ino, ino);
}

/// A closed handle is unknown, and every other handle stays what it was.
pub proof fn closed_handles_are_gone(s: FsState, handle: u64, other: u64)
    requires
        other != handle,
    ensures
        io_path(FsState { files: s.files.remove(handle), ..s }, handle) is None,
        io_path(FsState { files: s.files.remove(handle), ..s }, other) == io_path(s, other),
{
}

/// An inode stays known exactly as long as it is referenced, the root always.
/// Forgetting one inode does not touch another.
pub proof fn inodes_live_while_referenced(s: FsState, ino: u64, count: u64, other: u64)
    requires
        other != ino,
    ensures
        forgotten(s, ino, count).nodes.contains_key(ino) <==> s.nodes.contains_key(ino) && (ino
            == ROOT_INODE || s.nodes[ino].refs > count),
        forgotten(s, ino, count).nodes.contains_key(other) <==> s.nodes.contains_key(other),
        s.nodes.contains_key(other) ==> forgotten(s, ino, count).nodes[other] == s.nodes[other],
{
}

/// Looking a path up and forgetting that one reference leaves everything as it
/// was, except that a number may have been used.
pub proof fn forget_undoes_lookup(s: FsState, path: Seq<u8>)
    requires
        consistent(s),
        numbered(s),
        shaped(path),
        inode_at(s.nodes, path) matches Some(i) ==> i != ROOT_INODE && 0 < s.nodes[i].refs
            < u64::MAX,
    ensures
        forgotten(referenced(s, path), referenced_inode(s, path), 1) == (FsState {
            next_inode: referenced(s, path).next_inode,
            ..s
        }),
{
    lemma_only_one(s, path);
    let t = referenced(s, path);
    let i = referenced_inode(s, path);
    let u = forgotten(t, i, 1);
    if inode_at(s.nodes, path) is None {
        assert(evicted(s, s.next_inode) == s);
        assert forall|h: u64| #[trigger] s.files.contains_key(h) implies u.files[h]
            == s.files[h] by {}
        assert forall|h: u64| #[trigger] s.dirs.contains_key(h) implies u.dirs[h] == s.dirs[h] by {}
    }
    assert(u =~= (FsState { next_inode: t.next_inode, ..s }));
}

/// Looking the same path up again finds the same inode.
pub proof fn repeated_lookups_agree(s: FsState, path: Seq<u8>)
    requires
        consistent(s),
        shaped(path),
    ensures
        inode_at(referenced(s, path).nodes, path) == Some(referenced_inode(s, path)),
        referenced_inode(referenced(s, path), path) == referenced_inode(s, path),
{
    referencing_keeps_consistency(s, path);
    a_path_names_one_inode(referenced(s, path), referenced_inode(s, path));
}

/// Different paths have different inodes.
pub proof fn different_paths_have_different_inodes(s: FsState, p: Seq<u8>, q: Seq<u8>)
    requires
        consistent(s),
        numbered(s),
        s.next_inode < u64::MAX,
        shaped(p),
        shaped(q),
        p != q,
    ensures
        referenced_inode(referenced(s, p), q) != referenced_inode(s, p),
{
    let t = referenced(s, p);
    referencing_keeps_consistency(s, p);
    lemma_only_one(t, q);
}

/// Looking one path up leaves every other path where it is.
pub proof fn lookups_leave_other_paths_alone(s: FsState, p: Seq<u8>, q: Seq<u8>)
    requires
        consistent(s),
        numbered(s),
        shaped(p),
        p != q,
    ensures
        inode_at(referenced(s, p).nodes, q) == inode_at(s.nodes, q),
{
    let t = referenced(s, p);
    lemma_only_one(s, p);
    lemma_only_one(s, q);
    referencing_keeps_consistency(s, p);
    lemma_only_one(t, q);
    if let Some(i) = inode_at(s.nodes, q) {
        assert(is_at(t.nodes, i, q));
    } else if let Some(i) = inode_at(t.nodes, q) {
        assert(is_at(t.nodes, i, q));
        assert(is_at(s.nodes, i, q));
    }
}

/// A listing shows an interned entry under the inode that a lookup of it
/// returns.
pub proof fn listed_numbers_are_lookup_numbers(s: FsState, path: Seq<u8>)
    requires
        inode_at(s.nodes, path) is Some,
    ensures
        own_inode(s.nodes, path) == referenced_inode(s, path),
{
}

/// A renamed node keeps its inode: what was at or under the old name is found
/// under the new one.
pub proof fn renames_keep_inodes(s: FsState, from: Seq<u8>, to: Seq<u8>, path: Seq<u8>)
    requires
        consistent(s),
        shaped(from),
        shaped(to),
        from.len() > 1,
        to.len() > 1,
        at_or_under(path, from),
        inode_at(s.nodes, path) is Some,
    ensures
        inode_at(remapped(s, from, to).nodes, to + path.skip(from.len() as int)) == inode_at(
            s.nodes,
            path,
        ),
{
    lemma_only_one(s, path);
    let ino = inode_at(s.nodes, path)->0;
    let t = remapped(s, from, to);
    renaming_keeps_consistency(s, from, to);
    assert(t.nodes.contains_key(ino));
    a_path_names_one_inode(t, ino);
}

/// After a rename nothing is left at or under the old name, except what the
/// rename itself put there because the old name lies below the new one.
pub proof fn nothing_stays_at_the_old_name(
    s: FsState,
    from: Seq<u8>,
    to: Seq<u8>,
    path: Seq<u8>,
)
    requires
        consistent(s),
        shaped(from),
        shaped(to),
        from.len() > 1,
        !at_or_under(to, from),
        at_or_under(path, from),
        !at_or_under(path, to),
    ensures
        inode_at(remapped(s, from, to).nodes, path) is None,
{
    let t = remapped(s, from, to);
    assert forall|i: u64| !#[trigger] is_at(t.nodes, i, path) by {
        if is_at(t.nodes, i, path) {
            let p = s.nodes[i].path;
            assert(path == renamed_path(i, p, from, to));
            assert(path.take(from.len() as int)[0] == path[0]);
            tombstones_are_private(path, i, i);
            if at_or_under(p, from) {
                lemma_moved(p, p, from, to);
            }
        }
    }
}

/// A path outside both names keeps its inode in a rename.
pub proof fn renames_leave_the_rest_alone(s: FsState, from: Seq<u8>, to: Seq<u8>, ino: u64)
    requires
        s.nodes.contains_key(ino),
        !at_or_under(s.nodes[ino].path, from),
        !at_or_under(s.nodes[ino].path, to),
    ensures
        remapped(s, from, to).nodes.contains_key(ino),
        remapped(s, from, to).nodes[ino] == s.nodes[ino],
{
}

/// Renaming there and back restores the tables, where the new name was free and
/// neither name lies below the other.
pub proof fn renaming_back_restores(s: FsState, from: Seq<u8>, to: Seq<u8>)
    requires
        from != root(),
        !at_or_under(from, to),
        !at_or_under(to, from),
        forall|i: u64| #[trigger] s.nodes.contains_key(i) ==> !at_or_under(s.nodes[i].path, to),
    ensures
        remapped(remapped(s, from, to), to, from) == s,
{
    let t = remapped(s, from, to);
    let u = remapped(t, to, from);
    assert forall|i: u64| #[trigger] s.nodes.contains_key(i) implies t.nodes.contains_key(i)
        && u.nodes.contains_key(i) && u.nodes[i] == s.nodes[i] by {
        let p = s.nodes[i].path;
        if at_or_under(p, from) {
            let q = to + p.skip(from.len() as int);
            lemma_moved(p, p, from, to);
            assert(t.nodes[i].path == q);
            assert(q.skip(to.len() as int) =~= p.skip(from.len() as int));
            assert(p =~= from + p.skip(from.len() as int)) by {
                assert(p =~= p.take(from.len() as int) + p.skip(from.len() as int));
            }
            lemma_under_one_only(q, to, from);
        } else {
            assert(t.nodes[i] == s.nodes[i]);
        }
    }
    assert(u.nodes =~= s.nodes);
    assert(t.files =~= s.files);
    assert(t.dirs =~= s.dirs);
    assert forall|i: u64| !dropped_by_rename(t.nodes, i, to, from) by {
        if t.nodes.contains_key(i) {
            assert(u.nodes.contains_key(i));
        }
    }
    assert(u.files =~= s.files);
    assert(u.dirs =~= s.dirs);
}

/// What lies under one of two names, neither of which lies under the other, does
/// not lie under the other one.
proof fn lemma_under_one_only(path: Seq<u8>, a: Seq<u8>, b: Seq<u8>)
    requires
        at_or_under(path, a),
        !at_or_under(a, b),
        !at_or_under(b, a),
    ensures
        !at_or_under(path, b),
{
    if at_or_under(path, b) {
        if a.len() <= b.len() {
            assert(b.take(a.len() as int) =~= path.take(a.len() as int));
            if a.len() < b.len() {
                assert(b[a.len() as int] == path.take(b.len() as int)[a.len() as int]);
            }
        } else {
            assert(a.take(b.len() as int) =~= path.take(b.len() as int));
            assert(a[b.len() as int] == path.take(a.len() as int)[b.len() as int]);
        }
    }
}

/// Page after page, the snapshot of an open directory is read completely, every
/// entry once and in order, whatever the size of the buffer.
pub proof fn open_directories_can_be_read_to_the_end(
    s: FsState,
    handle: u64,
    header: u64,
    size: u32,
)
    requires
        consistent(s),
        s.dirs.contains_key(handle),
        s.dirs[handle].snapshot is Some,
    ensures
        all_pages(header, s.dirs[handle].snapshot->0, 0, size) == s.dirs[handle].snapshot->0,
{
    let entries = s.dirs[handle].snapshot->0;
    assert(snapshot_proper(entries));
    paging_returns_every_entry_once(header, entries, 0, size);
    assert(entries.skip(0) =~= entries);
}

/// An unlinked node that the guest still references is no longer at its path,
/// keeps a path that no lookup can reach, and files open on it go on under the
/// path they were opened with.
pub proof fn unlinked_files_stay_readable(s: FsState, path: Seq<u8>, handle: u64)
    requires
        consistent(s),
        shaped(path),
        inode_at(s.nodes, path) matches Some(i) && s.nodes[i].refs > 0 && s.files.contains_key(
            handle,
        ) && s.files[handle].inode == i && s.files[handle].orphan is None,
    ensures
        tombstoned(detached(s, path).nodes[inode_at(s.nodes, path)->0].path),
        io_path(s, handle) == Some(path),
        io_path(detached(s, path), handle) == Some(s.files[handle].path),
{
    lemma_only_one(s, path);
    let i = inode_at(s.nodes, path)->0;
    tombstones_are_private(path, i, i);
}

/// A handle opened before a rename goes on under the new name.
pub proof fn handles_follow_renames(s: FsState, from: Seq<u8>, to: Seq<u8>, handle: u64)
    requires
        consistent(s),
        shaped(from),
        shaped(to),
        s.files.contains_key(handle),
        s.files[handle].orphan is None,
        at_or_under(s.nodes[s.files[handle].inode].path, from),
    ensures
        io_path(s, handle) == Some(s.nodes[s.files[handle].inode].path),
        io_path(remapped(s, from, to), handle) == Some(
            to + s.nodes[s.files[handle].inode].path.skip(from.len() as int),
        ),
{
    let i = s.files[handle].inode;
    let p = s.nodes[i].path;
    tombstones_are_private(p, i, i);
    tombstones_are_private(to + p.skip(from.len() as int), i, i);
}

/// A handle whose node was evicted keeps the path it had: nothing that happens
/// to the table later changes it.
pub proof fn orphans_keep_their_path(s: FsState, ino: u64, handle: u64)
    requires
        consistent(s),
        s.nodes.contains_key(ino),
        s.files.contains_key(handle),
        s.files[handle].inode == ino,
        s.files[handle].orphan is None,
    ensures
        io_path(evicted(s, ino), handle) == io_path(s, handle),
        evicted(s, ino).files[handle].orphan == Some(s.nodes[ino].path),
{
}

} // verus!
