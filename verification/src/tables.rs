//! The inode and handle tables: what they hold, and the transitions between
//! table states that the operations are made of.
//!
//! A node is known by its inode number and, at the same time, by its absolute
//! path. An open handle keeps its node usable after the node has left the table:
//! it then carries the last path of the node itself.

use crate::abi::{DirEntry, DirEntryV};
use crate::bytes::{bytes_eq, copy_bytes, holds_bytes, root, views, SLASH};
use crate::paths::{
    at_or_under, is_at_or_under, is_tombstone, parent_of, parent_path, tombstone, tombstone_key,
    tombstoned,
};
use std::collections::BTreeMap;
use vstd::prelude::*;

verus! {

broadcast use vstd::std_specs::btree::group_btree_axioms;

/// Root inode number (FUSE convention).
pub const ROOT_INODE: u64 = 1;

/// The lookup references the root starts with: it is pinned, so that no count of
/// forgotten references evicts it.
pub const ROOT_REFS: u64 = u64::MAX / 2;

/// A live inode: the record of a path that the guest is referencing.
pub struct VNode {
    /// Absolute guest path, or a tombstone once the name is gone.
    pub path: Vec<u8>,
    /// FUSE lookup reference count.
    pub lookup_refs: u64,
}

/// The mathematical content of a [`VNode`].
#[verifier::ext_equal]
pub struct NodeV {
    pub path: Seq<u8>,
    pub refs: u64,
}

impl View for VNode {
    type V = NodeV;

    open spec fn view(&self) -> NodeV {
        NodeV { path: self.path@, refs: self.lookup_refs }
    }
}

/// The content of an optional byte string.
pub open spec fn opt_bytes(b: Option<Vec<u8>>) -> Option<Seq<u8>> {
    match b {
        Some(v) => Some(v@),
        None => None,
    }
}

/// An open file handle.
pub struct VFileHandle {
    /// The node that was opened.
    pub inode: u64,
    /// The last path of the node, once the node has left the inode table.
    pub orphan: Option<Vec<u8>>,
    /// Guest path captured at open time, for provider I/O after unlink.
    pub path: Vec<u8>,
}

/// The mathematical content of a [`VFileHandle`].
#[verifier::ext_equal]
pub struct FileV {
    pub inode: u64,
    pub orphan: Option<Seq<u8>>,
    pub path: Seq<u8>,
}

impl View for VFileHandle {
    type V = FileV;

    open spec fn view(&self) -> FileV {
        FileV { inode: self.inode, orphan: opt_bytes(self.orphan), path: self.path@ }
    }
}

/// The contents of a listing.
pub open spec fn listing_view(entries: Seq<DirEntry>) -> Seq<DirEntryV> {
    Seq::new(entries.len(), |i: int| entries[i]@)
}

/// The content of an optional listing.
pub open spec fn opt_listing(snapshot: Option<Vec<DirEntry>>) -> Option<Seq<DirEntryV>> {
    match snapshot {
        Some(v) => Some(listing_view(v@)),
        None => None,
    }
}

/// An open directory handle.
pub struct VDirHandle {
    /// The node that was opened.
    pub inode: u64,
    /// The last path of the node, once the node has left the inode table.
    pub orphan: Option<Vec<u8>>,
    /// Entry snapshot, built lazily on first readdir.
    pub snapshot: Option<Vec<DirEntry>>,
}

/// The mathematical content of a [`VDirHandle`].
#[verifier::ext_equal]
pub struct DirV {
    pub inode: u64,
    pub orphan: Option<Seq<u8>>,
    pub snapshot: Option<Seq<DirEntryV>>,
}

impl View for VDirHandle {
    type V = DirV;

    open spec fn view(&self) -> DirV {
        DirV {
            inode: self.inode,
            orphan: opt_bytes(self.orphan),
            snapshot: opt_listing(self.snapshot),
        }
    }
}

/// A state of the tables.
#[verifier::ext_equal]
pub struct FsState {
    /// The live inodes.
    pub nodes: Map<u64, NodeV>,
    /// The open file handles.
    pub files: Map<u64, FileV>,
    /// The open directory handles.
    pub dirs: Map<u64, DirV>,
    /// The next inode to allocate.
    pub next_inode: u64,
    /// The next handle to allocate.
    pub next_handle: u64,
}

/// The state a file system starts in: the root alone, and nothing open.
pub open spec fn initial_state() -> FsState {
    FsState {
        nodes: Map::<u64, NodeV>::empty().insert(
            ROOT_INODE,
            NodeV { path: root(), refs: ROOT_REFS },
        ),
        files: Map::empty(),
        dirs: Map::empty(),
        next_inode: 2,
        next_handle: 1,
    }
}

/// Whether `ino` is a live inode at `path`.
pub open spec fn is_at(nodes: Map<u64, NodeV>, ino: u64, path: Seq<u8>) -> bool {
    nodes.contains_key(ino) && nodes[ino].path == path
}

/// The inode at a path. There is at most one in every state that the
/// transitions reach; of several, the lowest is meant.
pub open spec fn inode_at(nodes: Map<u64, NodeV>, path: Seq<u8>) -> Option<u64> {
    if exists|i: u64| #[trigger] is_at(nodes, i, path) {
        Some(
            choose|i: u64| #[trigger]
                is_at(nodes, i, path) && forall|j: u64| #[trigger]
                    is_at(nodes, j, path) ==> i <= j,
        )
    } else {
        None
    }
}

/// The lowest inode at a path is the inode at that path.
pub proof fn lemma_inode_at(nodes: Map<u64, NodeV>, ino: u64, path: Seq<u8>)
    requires
        is_at(nodes, ino, path),
        forall|j: u64| #[trigger] is_at(nodes, j, path) ==> ino <= j,
    ensures
        inode_at(nodes, path) == Some(ino),
{
    let i = choose|i: u64| #[trigger]
        is_at(nodes, i, path) && forall|j: u64| #[trigger] is_at(nodes, j, path) ==> i <= j;
    assert(is_at(nodes, i, path) && i <= ino);
}

/// Where some inode is at a path, the inode at that path is the lowest one.
pub proof fn lemma_inode_at_some(nodes: Map<u64, NodeV>, ino: u64, path: Seq<u8>)
    requires
        is_at(nodes, ino, path),
    ensures
        inode_at(nodes, path) matches Some(i) && is_at(nodes, i, path) && i <= ino,
    decreases ino,
{
    if exists|j: u64| #[trigger] is_at(nodes, j, path) && j < ino {
        let j = choose|j: u64| #[trigger] is_at(nodes, j, path) && j < ino;
        lemma_inode_at_some(nodes, j, path);
    } else {
        lemma_inode_at(nodes, ino, path);
    }
}

/// The path of the node behind a handle: its last path where it has left the
/// table.
pub open spec fn holder_path(
    nodes: Map<u64, NodeV>,
    inode: u64,
    orphan: Option<Seq<u8>>,
) -> Option<Seq<u8>> {
    match orphan {
        Some(p) => Some(p),
        None => if nodes.contains_key(inode) {
            Some(nodes[inode].path)
        } else {
            None
        },
    }
}

/// A file handle after the node `ino` has left the table.
pub open spec fn orphaned_file(f: FileV, ino: u64, last: Seq<u8>) -> FileV {
    if f.inode == ino && f.orphan is None {
        FileV { orphan: Some(last), ..f }
    } else {
        f
    }
}

/// A directory handle after the node `ino` has left the table.
pub open spec fn orphaned_dir(d: DirV, ino: u64, last: Seq<u8>) -> DirV {
    if d.inode == ino && d.orphan is None {
        DirV { orphan: Some(last), ..d }
    } else {
        d
    }
}

/// The state after the node `ino`, if there is one, has left the inode table.
pub open spec fn evicted(s: FsState, ino: u64) -> FsState {
    if s.nodes.contains_key(ino) {
        FsState {
            nodes: s.nodes.remove(ino),
            files: s.files.map_values(|f: FileV| orphaned_file(f, ino, s.nodes[ino].path)),
            dirs: s.dirs.map_values(|d: DirV| orphaned_dir(d, ino, s.nodes[ino].path)),
            ..s
        }
    } else {
        s
    }
}

/// The state after one lookup reference was taken for `path`.
pub open spec fn referenced(s: FsState, path: Seq<u8>) -> FsState {
    match inode_at(s.nodes, path) {
        Some(i) => FsState {
            nodes: s.nodes.insert(
                i,
                NodeV { refs: s.nodes[i].refs.wrapping_add(1), ..s.nodes[i] },
            ),
            ..s
        },
        None => FsState {
            nodes: evicted(s, s.next_inode).nodes.insert(s.next_inode, NodeV { path, refs: 1 }),
            next_inode: s.next_inode.wrapping_add(1),
            ..evicted(s, s.next_inode)
        },
    }
}

/// The inode of `path` once it is referenced: the one it has, or the next one.
pub open spec fn referenced_inode(s: FsState, path: Seq<u8>) -> u64 {
    match inode_at(s.nodes, path) {
        Some(i) => i,
        None => s.next_inode,
    }
}

/// The state after `count` lookup references of `ino` were given up.
pub open spec fn forgotten(s: FsState, ino: u64, count: u64) -> FsState {
    if ino == ROOT_INODE || !s.nodes.contains_key(ino) {
        s
    } else if s.nodes[ino].refs <= count {
        evicted(s, ino)
    } else {
        FsState {
            nodes: s.nodes.insert(
                ino,
                NodeV { refs: (s.nodes[ino].refs - count) as u64, ..s.nodes[ino] },
            ),
            ..s
        }
    }
}

/// The state after the name `path` is gone: a node that the guest still
/// references stays, under a tombstone.
pub open spec fn detached(s: FsState, path: Seq<u8>) -> FsState {
    match inode_at(s.nodes, path) {
        None => s,
        Some(i) => if s.nodes[i].refs == 0 {
            evicted(s, i)
        } else {
            FsState { nodes: s.nodes.insert(i, NodeV { path: tombstone(i), ..s.nodes[i] }), ..s }
        },
    }
}

/// Whether a node at `path` is replaced by a rename of `from` to `to`: it lives
/// at the destination and does not itself move.
pub open spec fn overwritten(path: Seq<u8>, from: Seq<u8>, to: Seq<u8>) -> bool {
    at_or_under(path, to) && !at_or_under(path, from)
}

/// The path of the node `ino` after a rename of `from` to `to`.
pub open spec fn renamed_path(ino: u64, path: Seq<u8>, from: Seq<u8>, to: Seq<u8>) -> Seq<u8> {
    if overwritten(path, from, to) {
        tombstone(ino)
    } else if at_or_under(path, from) {
        to + path.skip(from.len() as int)
    } else {
        path
    }
}

/// Whether the node `ino` leaves the table in a rename of `from` to `to`.
pub open spec fn dropped_by_rename(
    nodes: Map<u64, NodeV>,
    ino: u64,
    from: Seq<u8>,
    to: Seq<u8>,
) -> bool {
    nodes.contains_key(ino) && nodes[ino].refs == 0 && overwritten(nodes[ino].path, from, to)
}

/// The state after a rename of `from` to `to`: every node at or under `from`
/// follows the move, and what lived at the destination loses its name.
pub open spec fn remapped(s: FsState, from: Seq<u8>, to: Seq<u8>) -> FsState {
    FsState {
        nodes: Map::new(
            |i: u64| s.nodes.contains_key(i) && !dropped_by_rename(s.nodes, i, from, to),
            |i: u64|
                NodeV { path: renamed_path(i, s.nodes[i].path, from, to), ..s.nodes[i] },
        ),
        files: s.files.map_values(
            |f: FileV|
                if dropped_by_rename(s.nodes, f.inode, from, to) {
                    orphaned_file(f, f.inode, s.nodes[f.inode].path)
                } else {
                    f
                },
        ),
        dirs: s.dirs.map_values(
            |d: DirV|
                if dropped_by_rename(s.nodes, d.inode, from, to) {
                    orphaned_dir(d, d.inode, s.nodes[d.inode].path)
                } else {
                    d
                },
        ),
        ..s
    }
}

/// A directory handle without its snapshot.
pub open spec fn unlisted(d: DirV) -> DirV {
    DirV { snapshot: None, ..d }
}

/// Whether a handle is open on a directory that still has a path, and that path
/// is one of `paths`.
pub open spec fn lists_one_of(nodes: Map<u64, NodeV>, d: DirV, paths: Set<Seq<u8>>) -> bool {
    match holder_path(nodes, d.inode, d.orphan) {
        Some(p) => !tombstoned(p) && paths.contains(p),
        None => false,
    }
}

/// The state after the snapshots of all handles on the directories `paths` were
/// dropped.
pub open spec fn relisted(s: FsState, paths: Set<Seq<u8>>) -> FsState {
    FsState {
        dirs: s.dirs.map_values(
            |d: DirV|
                if lists_one_of(s.nodes, d, paths) {
                    unlisted(d)
                } else {
                    d
                },
        ),
        ..s
    }
}

/// The directories whose listings a rename of `from` to `to` changes, as they
/// are called after it: both parents, and everything at or under `to`.
pub open spec fn renamed_listings(from: Seq<u8>, to: Seq<u8>) -> Set<Seq<u8>> {
    Set::new(|p: Seq<u8>| p == parent_of(from) || p == parent_of(to) || at_or_under(p, to))
}

/// The path for I/O on the file handle `handle`, if it is open: the path of its
/// node, or else the one it was opened under.
pub open spec fn io_path(s: FsState, handle: u64) -> Option<Seq<u8>> {
    if !s.files.contains_key(handle) {
        None
    } else {
        let f = s.files[handle];
        match holder_path(s.nodes, f.inode, f.orphan) {
            Some(p) => if tombstoned(p) {
                Some(f.path)
            } else {
                Some(p)
            },
            None => Some(f.path),
        }
    }
}

/// The state after the node `ino` was opened as a file under `path`.
pub open spec fn file_opened(s: FsState, ino: u64, path: Seq<u8>) -> FsState {
    FsState {
        files: s.files.insert(s.next_handle, FileV { inode: ino, orphan: None, path }),
        next_handle: s.next_handle.wrapping_add(1),
        ..s
    }
}

/// The state after the node `ino` was opened as a directory.
pub open spec fn dir_opened(s: FsState, ino: u64) -> FsState {
    FsState {
        dirs: s.dirs.insert(s.next_handle, DirV { inode: ino, orphan: None, snapshot: None }),
        next_handle: s.next_handle.wrapping_add(1),
        ..s
    }
}

/// The state after the snapshot of the directory handle `handle` was replaced.
pub open spec fn snapshot_set(
    s: FsState,
    handle: u64,
    snapshot: Option<Seq<DirEntryV>>,
) -> FsState {
    FsState { dirs: s.dirs.insert(handle, DirV { snapshot, ..s.dirs[handle] }), ..s }
}

/// The state after a rename was applied to the nodes `among` alone.
spec fn remapped_among(s: FsState, from: Seq<u8>, to: Seq<u8>, among: Set<u64>) -> FsState {
    FsState {
        nodes: Map::new(
            |i: u64|
                s.nodes.contains_key(i) && !(among.contains(i) && dropped_by_rename(
                    s.nodes,
                    i,
                    from,
                    to,
                )),
            |i: u64|
                if among.contains(i) {
                    NodeV { path: renamed_path(i, s.nodes[i].path, from, to), ..s.nodes[i] }
                } else {
                    s.nodes[i]
                },
        ),
        files: s.files.map_values(
            |f: FileV|
                if among.contains(f.inode) && dropped_by_rename(s.nodes, f.inode, from, to) {
                    orphaned_file(f, f.inode, s.nodes[f.inode].path)
                } else {
                    f
                },
        ),
        dirs: s.dirs.map_values(
            |d: DirV|
                if among.contains(d.inode) && dropped_by_rename(s.nodes, d.inode, from, to) {
                    orphaned_dir(d, d.inode, s.nodes[d.inode].path)
                } else {
                    d
                },
        ),
        ..s
    }
}

/// One more element of a list without duplicates is one more element of the set.
proof fn lemma_take_step(keys: Seq<u64>, i: int)
    requires
        0 <= i < keys.len(),
        keys.no_duplicates(),
    ensures
        keys.take(i + 1).to_set() == keys.take(i).to_set().insert(keys[i]),
        !keys.take(i).to_set().contains(keys[i]),
{
    let was = keys.take(i);
    let now = keys.take(i + 1);
    assert(now =~= was.push(keys[i]));
    if was.contains(keys[i]) {
        let j = choose|j: int| 0 <= j < was.len() && was[j] == keys[i];
        assert(keys[j] == keys[i]);
    }
    assert forall|x: u64| now.contains(x) <==> was.contains(x) || x == keys[i] by {
        if now.contains(x) {
            let j = choose|j: int| 0 <= j < now.len() && now[j] == x;
            if j < i {
                assert(was[j] == x);
            }
        }
        if was.contains(x) {
            let j = choose|j: int| 0 <= j < was.len() && was[j] == x;
            assert(now[j] == x);
        }
        assert(now[i] == keys[i]);
    }
    assert(now.to_set() =~= was.to_set().insert(keys[i]));
}

/// A set of directories whose listings have changed.
enum Listings<'a> {
    /// The directories at the given paths.
    At(&'a [Vec<u8>]),
    /// Two parents, and everything at or under the new name.
    Renamed { parent_from: &'a [u8], parent_to: &'a [u8], to: &'a [u8] },
}

impl Listings<'_> {
    /// The paths of the directories.
    spec fn paths(self) -> Set<Seq<u8>> {
        match self {
            Listings::At(dirs) => views(dirs@).to_set(),
            Listings::Renamed { parent_from, parent_to, to } => Set::new(
                |p: Seq<u8>| p == parent_from@ || p == parent_to@ || at_or_under(p, to@),
            ),
        }
    }

    /// Whether the directory at `path` is one of them.
    fn covers(&self, path: &[u8]) -> (r: bool)
        ensures
            r == self.paths().contains(path@),
    {
        match self {
            Listings::At(dirs) => holds_bytes(dirs, path),
            Listings::Renamed { parent_from, parent_to, to } => {
                bytes_eq(path, parent_from) || bytes_eq(path, parent_to) || is_at_or_under(path, to)
            },
        }
    }
}

/// The keys of a table, each once.
fn table_keys<V>(m: &BTreeMap<u64, V>) -> (r: Vec<u64>)
    ensures
        r@.no_duplicates(),
        forall|k: u64| #[trigger] r@.contains(k) <==> m@.contains_key(k),
{
    let mut r: Vec<u64> = Vec::new();
    for k in it: m.keys()
        invariant
            r@ == it.seq().unref().take(it.index()),
    {
        r.push(*k);
        assert(r@ =~= it.seq().unref().take(it.index() + 1));
    }
    let ghost all = vstd::std_specs::iter::IteratorSpec::remaining(
        &vstd::std_specs::btree::spec_keys_iter(m),
    ).unref();
    assert(r@ =~= all);
    assert forall|k: u64| #[trigger] r@.contains(k) <==> m@.contains_key(k) by {
        assert(all.to_set().contains(k) <==> m@.dom().contains(k));
    }
    r
}

/// The inode and handle tables of one file system.
pub struct Tables {
    nodes: BTreeMap<u64, VNode>,
    files: BTreeMap<u64, VFileHandle>,
    dirs: BTreeMap<u64, VDirHandle>,
    next_inode: u64,
    next_handle: u64,
}

impl View for Tables {
    type V = FsState;

    closed spec fn view(&self) -> FsState {
        FsState {
            nodes: node_views(self.nodes@),
            files: file_views(self.files@),
            dirs: dir_views(self.dirs@),
            next_inode: self.next_inode,
            next_handle: self.next_handle,
        }
    }
}

/// The contents of an inode table.
spec fn node_views(m: Map<u64, VNode>) -> Map<u64, NodeV> {
    m.map_values(|n: VNode| n@)
}

/// The contents of a file handle table.
spec fn file_views(m: Map<u64, VFileHandle>) -> Map<u64, FileV> {
    m.map_values(|f: VFileHandle| f@)
}

/// The contents of a directory handle table.
spec fn dir_views(m: Map<u64, VDirHandle>) -> Map<u64, DirV> {
    m.map_values(|d: VDirHandle| d@)
}

/// Hand the last path of the node `ino` to the file handles open on it.
fn orphan_files(files: &mut BTreeMap<u64, VFileHandle>, ino: u64, last: &[u8])
    ensures
        file_views(final(files)@) == file_views(old(files)@).map_values(
            |f: FileV| orphaned_file(f, ino, last@),
        ),
{
    let ghost before = file_views(files@);
    let keys = table_keys(files);
    let mut i: usize = 0;
    while i < keys.len()
        invariant
            i <= keys.len(),
            keys@.no_duplicates(),
            before == file_views(old(files)@),
            forall|k: u64| #[trigger] keys@.contains(k) <==> before.contains_key(k),
            file_views(files@).dom() == before.dom(),
            forall|j: int|
                0 <= j < i ==> file_views(files@)[#[trigger] keys@[j]] == orphaned_file(
                    before[keys@[j]],
                    ino,
                    last@,
                ),
            forall|j: int|
                i <= j < keys@.len() ==> file_views(files@)[#[trigger] keys@[j]]
                    == before[keys@[j]],
        decreases keys.len() - i,
    {
        let k = keys[i];
        assert(keys@.contains(k));
        assert(file_views(files@).contains_key(k));
        let ghost cur = file_views(files@);
        if let Some(mut f) = files.remove(&k) {
            if f.inode == ino && f.orphan.is_none() {
                f.orphan = Some(copy_bytes(last));
            }
            files.insert(k, f);
            assert(file_views(files@) =~= cur.insert(k, f@));
        }
        i += 1;
    }
    assert(file_views(files@) =~= before.map_values(|f: FileV| orphaned_file(f, ino, last@))) by {
        assert forall|k: u64| before.contains_key(k) implies file_views(files@)[k]
            == orphaned_file(before[k], ino, last@) by {
            assert(keys@.contains(k));
            let j = choose|j: int| 0 <= j < keys@.len() && keys@[j] == k;
            assert(keys@[j] == k);
        }
    }
}

/// Hand the last path of the node `ino` to the directory handles open on it.
fn orphan_dirs(dirs: &mut BTreeMap<u64, VDirHandle>, ino: u64, last: &[u8])
    ensures
        dir_views(final(dirs)@) == dir_views(old(dirs)@).map_values(
            |d: DirV| orphaned_dir(d, ino, last@),
        ),
{
    let ghost before = dir_views(dirs@);
    let keys = table_keys(dirs);
    let mut i: usize = 0;
    while i < keys.len()
        invariant
            i <= keys.len(),
            keys@.no_duplicates(),
            before == dir_views(old(dirs)@),
            forall|k: u64| #[trigger] keys@.contains(k) <==> before.contains_key(k),
            dir_views(dirs@).dom() == before.dom(),
            forall|j: int|
                0 <= j < i ==> dir_views(dirs@)[#[trigger] keys@[j]] == orphaned_dir(
                    before[keys@[j]],
                    ino,
                    last@,
                ),
            forall|j: int|
                i <= j < keys@.len() ==> dir_views(dirs@)[#[trigger] keys@[j]] == before[keys@[j]],
        decreases keys.len() - i,
    {
        let k = keys[i];
        assert(keys@.contains(k));
        assert(dir_views(dirs@).contains_key(k));
        let ghost cur = dir_views(dirs@);
        if let Some(mut d) = dirs.remove(&k) {
            if d.inode == ino && d.orphan.is_none() {
                d.orphan = Some(copy_bytes(last));
            }
            dirs.insert(k, d);
            assert(dir_views(dirs@) =~= cur.insert(k, d@));
        }
        i += 1;
    }
    assert(dir_views(dirs@) =~= before.map_values(|d: DirV| orphaned_dir(d, ino, last@))) by {
        assert forall|k: u64| before.contains_key(k) implies dir_views(dirs@)[k] == orphaned_dir(
            before[k],
            ino,
            last@,
        ) by {
            assert(keys@.contains(k));
            let j = choose|j: int| 0 <= j < keys@.len() && keys@[j] == k;
            assert(keys@[j] == k);
        }
    }
}

impl Tables {
    /// The tables of a fresh file system.
    pub fn new() -> (r: Tables)
        ensures
            r@ == initial_state(),
    {
        let mut path: Vec<u8> = Vec::new();
        path.push(SLASH);
        assert(path@ =~= root());
        let mut nodes: BTreeMap<u64, VNode> = BTreeMap::new();
        nodes.insert(ROOT_INODE, VNode { path, lookup_refs: ROOT_REFS });
        let r = Tables {
            nodes,
            files: BTreeMap::new(),
            dirs: BTreeMap::new(),
            next_inode: ROOT_INODE + 1,
            next_handle: 1,
        };
        assert(r@ =~= initial_state());
        r
    }

    /// The path of a node, if the node is known.
    pub fn node_path(&self, ino: u64) -> (r: Option<&Vec<u8>>)
        ensures
            match r {
                Some(p) => self@.nodes.contains_key(ino) && p@ == self@.nodes[ino].path,
                None => !self@.nodes.contains_key(ino),
            },
    {
        match self.nodes.get(&ino) {
            Some(node) => Some(&node.path),
            None => None,
        }
    }

    /// The inode at a path, if there is one.
    pub fn find(&self, path: &[u8]) -> (r: Option<u64>)
        ensures
            r == inode_at(self@.nodes, path@),
            r matches Some(i) ==> is_at(self@.nodes, i, path@),
    {
        let keys = table_keys(&self.nodes);
        let mut found: Option<u64> = None;
        let mut i: usize = 0;
        while i < keys.len()
            invariant
                i <= keys.len(),
                forall|k: u64| #[trigger] keys@.contains(k) <==> self.nodes@.contains_key(k),
                match found {
                    Some(f) => is_at(self@.nodes, f, path@) && forall|j: int|
                        0 <= j < i && is_at(self@.nodes, #[trigger] keys@[j], path@) ==> f
                            <= keys@[j],
                    None => forall|j: int|
                        0 <= j < i ==> !is_at(self@.nodes, #[trigger] keys@[j], path@),
                },
            decreases keys.len() - i,
        {
            let k = keys[i];
            assert(keys@.contains(k));
            if let Some(node) = self.nodes.get(&k) {
                let lower = match found {
                    Some(f) => k < f,
                    None => true,
                };
                if lower && bytes_eq(node.path.as_slice(), path) {
                    found = Some(k);
                }
            }
            i += 1;
        }
        proof {
            assert forall|k: u64| #[trigger] is_at(self@.nodes, k, path@) implies exists|j: int|
                0 <= j < keys@.len() && keys@[j] == k by {
                assert(keys@.contains(k));
            }
            if let Some(f) = found {
                lemma_inode_at(self@.nodes, f, path@);
            }
        }
        found
    }

    /// Drop a node from the inode table. Handles open on it keep its last path.
    fn evict(&mut self, ino: u64)
        ensures
            final(self)@ == evicted(old(self)@, ino),
    {
        if let Some(node) = self.nodes.remove(&ino) {
            orphan_files(&mut self.files, ino, node.path.as_slice());
            orphan_dirs(&mut self.dirs, ino, node.path.as_slice());
        }
        assert(self@ =~= evicted(old(self)@, ino));
    }

    /// Put a node into the inode table.
    fn put_node(&mut self, ino: u64, path: Vec<u8>, lookup_refs: u64)
        ensures
            final(self)@ == (FsState {
                nodes: old(self)@.nodes.insert(ino, NodeV { path: path@, refs: lookup_refs }),
                ..old(self)@
            }),
    {
        self.nodes.insert(ino, VNode { path, lookup_refs });
        assert(self@.nodes =~= old(self)@.nodes.insert(
            ino,
            NodeV { path: path@, refs: lookup_refs },
        ));
    }

    /// Take one more lookup reference for a node.
    fn add_reference(&mut self, ino: u64)
        requires
            old(self)@.nodes.contains_key(ino),
        ensures
            final(self)@ == (FsState {
                nodes: old(self)@.nodes.insert(
                    ino,
                    NodeV {
                        refs: old(self)@.nodes[ino].refs.wrapping_add(1),
                        ..old(self)@.nodes[ino]
                    },
                ),
                ..old(self)@
            }),
    {
        if let Some(node) = self.nodes.remove(&ino) {
            let ghost without = self@;
            assert(without.nodes =~= old(self)@.nodes.remove(ino));
            self.put_node(ino, node.path, node.lookup_refs.wrapping_add(1));
            assert(self@.nodes =~= old(self)@.nodes.insert(ino, self@.nodes[ino]));
        }
    }

    /// Get or allocate the inode for `path` and take one lookup reference for
    /// it.
    pub fn intern_and_reference(&mut self, path: Vec<u8>) -> (r: u64)
        ensures
            r == referenced_inode(old(self)@, path@),
            final(self)@ == referenced(old(self)@, path@),
    {
        match self.find(path.as_slice()) {
            Some(ino) => {
                self.add_reference(ino);
                ino
            },
            None => {
                let ino = self.next_inode;
                self.evict(ino);
                self.next_inode = ino.wrapping_add(1);
                self.put_node(ino, path, 1);
                ino
            },
        }
    }

    /// Give up `count` lookup references of an inode, evicting it when none is
    /// left. The root is never evicted.
    pub fn forget_one(&mut self, ino: u64, count: u64)
        ensures
            final(self)@ == forgotten(old(self)@, ino, count),
    {
        if ino == ROOT_INODE {
            return;
        }
        let refs: u64 = match self.nodes.get(&ino) {
            Some(node) => node.lookup_refs,
            None => {
                return;
            },
        };
        let left = refs.saturating_sub(count);
        if left == 0 {
            self.evict(ino);
        } else if let Some(node) = self.nodes.remove(&ino) {
            self.put_node(ino, node.path, left);
        }
        assert(self@ =~= forgotten(old(self)@, ino, count));
    }

    /// Detach `path` after the object behind it is gone.
    ///
    /// A node the guest has already forgotten is removed outright. A node still
    /// referenced is re-keyed to a private tombstone instead.
    pub fn detach_path(&mut self, path: &[u8])
        ensures
            final(self)@ == detached(old(self)@, path@),
    {
        if let Some(ino) = self.find(path) {
            self.detach_node(ino);
        }
        assert(self@ =~= detached(old(self)@, path@));
    }

    /// Take the name from a node.
    fn detach_node(&mut self, ino: u64)
        ensures
            final(self)@ == (if !old(self)@.nodes.contains_key(ino) {
                old(self)@
            } else if old(self)@.nodes[ino].refs == 0 {
                evicted(old(self)@, ino)
            } else {
                FsState {
                    nodes: old(self)@.nodes.insert(
                        ino,
                        NodeV { path: tombstone(ino), ..old(self)@.nodes[ino] },
                    ),
                    ..old(self)@
                }
            }),
    {
        let refs: u64 = match self.nodes.get(&ino) {
            Some(node) => node.lookup_refs,
            None => {
                return;
            },
        };
        if refs == 0 {
            self.evict(ino);
        } else {
            self.put_node(ino, tombstone_key(ino), refs);
        }
    }

    /// After a rename, rewrite the inode table for the moved subtree so that
    /// open handles and cached inodes follow the move.
    pub fn remap_subtree_inodes(&mut self, from: &[u8], to: &[u8])
        ensures
            final(self)@ == remapped(old(self)@, from@, to@),
    {
        let ghost s = self@;
        let keys = table_keys(&self.nodes);
        let mut i: usize = 0;
        assert(keys@.take(0).to_set() =~= Set::<u64>::empty());
        assert(self@ =~= remapped_among(s, from@, to@, keys@.take(0).to_set()));
        while i < keys.len()
            invariant
                i <= keys.len(),
                keys@.no_duplicates(),
                forall|k: u64| #[trigger] keys@.contains(k) <==> s.nodes.contains_key(k),
                self@ == remapped_among(s, from@, to@, keys@.take(i as int).to_set()),
            decreases keys.len() - i,
        {
            let k = keys[i];
            let ghost done = keys@.take(i as int).to_set();
            let ghost cur = self@;
            proof {
                assert(keys@.contains(k));
                lemma_take_step(keys@, i as int);
                assert(cur.nodes.contains_key(k) && cur.nodes[k] == s.nodes[k]);
            }
            self.remap_node(k, from, to);
            assert(self@ =~= remapped_among(s, from@, to@, done.insert(k)));
            i += 1;
        }
        assert(keys@.take(keys@.len() as int) =~= keys@);
        assert forall|k: u64| s.nodes.contains_key(k) implies #[trigger] keys@.to_set().contains(
            k,
        ) by {
            assert(keys@.contains(k));
        }
        assert(self@ =~= remapped(s, from@, to@));
    }

    /// What a rename does to one node.
    fn remap_node(&mut self, ino: u64, from: &[u8], to: &[u8])
        requires
            old(self)@.nodes.contains_key(ino),
        ensures
            final(self)@ == (if dropped_by_rename(old(self)@.nodes, ino, from@, to@) {
                evicted(old(self)@, ino)
            } else {
                FsState {
                    nodes: old(self)@.nodes.insert(
                        ino,
                        NodeV {
                            path: renamed_path(ino, old(self)@.nodes[ino].path, from@, to@),
                            ..old(self)@.nodes[ino]
                        },
                    ),
                    ..old(self)@
                }
            }),
    {
        let ghost s = self@;
        let (path, refs): (Vec<u8>, u64) = match self.nodes.get(&ino) {
            Some(node) => (copy_bytes(node.path.as_slice()), node.lookup_refs),
            None => (Vec::new(), 0),
        };
        assert(path@ == s.nodes[ino].path && refs == s.nodes[ino].refs);
        let moves = is_at_or_under(path.as_slice(), from);
        if is_at_or_under(path.as_slice(), to) && !moves {
            self.detach_node(ino);
        } else if moves {
            let mut new_path = copy_bytes(to);
            let rest = vstd::slice::slice_subrange(path.as_slice(), from.len(), path.len());
            assert(rest@ =~= path@.skip(from@.len() as int));
            new_path.extend_from_slice(rest);
            assert(new_path@ =~= to@ + path@.skip(from@.len() as int));
            self.put_node(ino, new_path, refs);
        } else {
            assert(s.nodes =~= s.nodes.insert(ino, s.nodes[ino]));
        }
    }

    /// The path of the node behind a handle.
    fn holder(&self, inode: u64, orphan: &Option<Vec<u8>>) -> (r: Option<Vec<u8>>)
        ensures
            opt_bytes(r) == holder_path(self@.nodes, inode, opt_bytes(*orphan)),
    {
        match orphan {
            Some(p) => Some(copy_bytes(p.as_slice())),
            None => match self.nodes.get(&inode) {
                Some(node) => Some(copy_bytes(node.path.as_slice())),
                None => None,
            },
        }
    }

    /// Drop the snapshots of the handles on the given directories.
    fn relist(&mut self, which: &Listings)
        ensures
            final(self)@ == relisted(old(self)@, which.paths()),
    {
        let ghost s = self@;
        let keys = table_keys(&self.dirs);
        let mut i: usize = 0;
        while i < keys.len()
            invariant
                i <= keys.len(),
                keys@.no_duplicates(),
                s == old(self)@,
                forall|k: u64| #[trigger] keys@.contains(k) <==> s.dirs.contains_key(k),
                self@.nodes == s.nodes,
                self@.files == s.files,
                self@.next_inode == s.next_inode,
                self@.next_handle == s.next_handle,
                self@.dirs.dom() == s.dirs.dom(),
                forall|j: int|
                    0 <= j < i ==> self@.dirs[#[trigger] keys@[j]] == relisted(
                        s,
                        which.paths(),
                    ).dirs[keys@[j]],
                forall|j: int|
                    i <= j < keys@.len() ==> self@.dirs[#[trigger] keys@[j]] == s.dirs[keys@[j]],
            decreases keys.len() - i,
        {
            let k = keys[i];
            assert(keys@.contains(k));
            let ghost cur = self@;
            let mut hit: bool = false;
            if let Some(d) = self.dirs.get(&k) {
                assert(d@ == self@.dirs[k]);
                if let Some(path) = self.holder(d.inode, &d.orphan) {
                    hit = !is_tombstone(path.as_slice()) && which.covers(path.as_slice());
                }
            }
            assert(hit == lists_one_of(s.nodes, s.dirs[k], which.paths()));
            if hit {
                self.set_snapshot(k, None);
                assert(self@.dirs.dom() =~= s.dirs.dom());
            }
            i += 1;
        }
        assert(self@ =~= relisted(s, which.paths())) by {
            assert forall|k: u64| s.dirs.contains_key(k) implies self@.dirs[k] == relisted(
                s,
                which.paths(),
            ).dirs[k] by {
                assert(keys@.contains(k));
                let j = choose|j: int| 0 <= j < keys@.len() && keys@[j] == k;
                assert(keys@[j] == k);
            }
        }
    }

    /// Drop cached directory snapshots after a mutation that may change
    /// listings. Only handles whose directory path is listed in `dirs` are
    /// refreshed.
    pub fn invalidate_dir_listings(&mut self, dirs: &[Vec<u8>])
        ensures
            final(self)@ == relisted(old(self)@, views(dirs@).to_set()),
    {
        self.relist(&Listings::At(dirs));
    }

    /// Drop the snapshots that a rename makes stale: those of both parents and
    /// of the renamed subtree.
    pub fn invalidate_after_rename(&mut self, from: &[u8], to: &[u8])
        ensures
            final(self)@ == relisted(old(self)@, renamed_listings(from@, to@)),
    {
        let parent_from = parent_path(from);
        let parent_to = parent_path(to);
        let which = Listings::Renamed {
            parent_from: parent_from.as_slice(),
            parent_to: parent_to.as_slice(),
            to,
        };
        assert(which.paths() =~= renamed_listings(from@, to@));
        self.relist(&which);
    }

    /// The guest path for I/O on an open file handle: where its node has a path,
    /// that path, and otherwise the one it was opened under.
    pub fn file_handle_path(&self, handle: u64) -> (r: Option<Vec<u8>>)
        ensures
            opt_bytes(r) == io_path(self@, handle),
    {
        match self.files.get(&handle) {
            None => None,
            Some(f) => {
                assert(f@ == self@.files[handle]);
                if let Some(live) = self.holder(f.inode, &f.orphan) {
                    if !is_tombstone(live.as_slice()) {
                        return Some(live);
                    }
                }
                Some(copy_bytes(f.path.as_slice()))
            },
        }
    }

    /// Open a node as a file.
    pub fn open_file(&mut self, ino: u64, path: Vec<u8>) -> (r: u64)
        ensures
            r == old(self)@.next_handle,
            final(self)@ == file_opened(old(self)@, ino, path@),
    {
        let handle = self.next_handle;
        self.next_handle = handle.wrapping_add(1);
        self.files.insert(handle, VFileHandle { inode: ino, orphan: None, path });
        assert(self@ =~= file_opened(old(self)@, ino, path@));
        handle
    }

    /// Open a node as a directory.
    pub fn open_dir(&mut self, ino: u64) -> (r: u64)
        ensures
            r == old(self)@.next_handle,
            final(self)@ == dir_opened(old(self)@, ino),
    {
        let handle = self.next_handle;
        self.next_handle = handle.wrapping_add(1);
        self.dirs.insert(handle, VDirHandle { inode: ino, orphan: None, snapshot: None });
        assert(self@ =~= dir_opened(old(self)@, ino));
        handle
    }

    /// Close a file handle.
    pub fn close_file(&mut self, handle: u64)
        ensures
            final(self)@ == (FsState { files: old(self)@.files.remove(handle), ..old(self)@ }),
    {
        self.files.remove(&handle);
        assert(self@.files =~= old(self)@.files.remove(handle));
    }

    /// Close a directory handle.
    pub fn close_dir(&mut self, handle: u64)
        ensures
            final(self)@ == (FsState { dirs: old(self)@.dirs.remove(handle), ..old(self)@ }),
    {
        self.dirs.remove(&handle);
        assert(self@.dirs =~= old(self)@.dirs.remove(handle));
    }

    /// A directory handle, if it is open.
    pub fn dir_handle(&self, handle: u64) -> (r: Option<&VDirHandle>)
        ensures
            match r {
                Some(d) => self@.dirs.contains_key(handle) && d@ == self@.dirs[handle],
                None => !self@.dirs.contains_key(handle),
            },
    {
        self.dirs.get(&handle)
    }

    /// Replace the snapshot of an open directory handle.
    pub fn set_snapshot(&mut self, handle: u64, snapshot: Option<Vec<DirEntry>>)
        requires
            old(self)@.dirs.contains_key(handle),
        ensures
            final(self)@ == snapshot_set(old(self)@, handle, opt_listing(snapshot)),
    {
        if let Some(mut d) = self.dirs.remove(&handle) {
            d.snapshot = snapshot;
            self.dirs.insert(handle, d);
        }
        assert(self@ =~= snapshot_set(old(self)@, handle, opt_listing(snapshot)));
    }

    /// Empty all tables.
    pub fn clear(&mut self)
        ensures
            final(self)@ == (FsState {
                nodes: Map::empty(),
                files: Map::empty(),
                dirs: Map::empty(),
                ..old(self)@
            }),
    {
        self.files.clear();
        self.dirs.clear();
        self.nodes.clear();
        assert(self@.nodes =~= Map::<u64, NodeV>::empty());
        assert(self@.files =~= Map::<u64, FileV>::empty());
        assert(self@.dirs =~= Map::<u64, DirV>::empty());
    }
}

} // verus!
