//! Directory operations: opendir, readdir, readdirplus, fsyncdir, releasedir,
//! and the per-handle snapshot machinery.

use super::{
    all_forgotten, cache_flags, is_entry, path_lookup, resolved_paths_are_shaped, VirtualFs,
};
use crate::abi::{DirEntry, DirEntryV, Entry, OPEN_CACHE_DIR};
use crate::bytes::{copy_bytes, dot, dotdot, is_dot, is_dotdot, views};
use crate::config::VirtualFsConfig;
use crate::dirent::{build_snapshot, snapshot_of};
use crate::error::FsError;
use crate::invariants::{
    built_snapshots_are_proper, consistent, forget_undoes_lookup, handles_keep_consistency,
    handles_numbered, kept, lookups_leave_other_paths_alone, names_proper, numbered,
    referencing_keeps_consistency, rooted,
};
use crate::name_validation::readdir_name_check;
use crate::paging::{page_of, serve_page, FUSE_DIRENTPLUS_HEADER, FUSE_DIRENT_HEADER};
use crate::path_fs::{entry_views, NodeKind, PathFs, VAttr, VDirEntry};
use crate::paths::{join, joined, lemma_shaped_child, shaped};
use crate::platform::{
    eagain, ebadf, eio, enotdir, LINUX_EAGAIN, LINUX_EBADF, LINUX_EIO, LINUX_ENOTDIR,
};
use crate::replies::{
    replied_fsyncdir, replied_getattr, replied_getattr_many, replied_readdir, slice_views,
};
use crate::tables::{
    dir_opened, forgotten, inode_at, is_at, lemma_inode_at_some, listing_view, referenced,
    referenced_inode, snapshot_set, FsState, NodeV, ROOT_INODE,
};
use vstd::prelude::*;

verus! {

/// What becomes of an open request for the directory `ino` with the attributes
/// `reply`.
pub open spec fn dir_open_result(
    cfg: VirtualFsConfig,
    s: FsState,
    ino: u64,
    reply: Result<VAttr, FsError>,
    t: FsState,
    r: Result<(Option<u64>, u32), FsError>,
) -> bool {
    match reply {
        Err(e) => r == Err::<(Option<u64>, u32), FsError>(e) && t == s,
        Ok(attr) => if attr.kind != NodeKind::Dir {
            r == Err::<(Option<u64>, u32), FsError>(FsError::Os(LINUX_ENOTDIR)) && t == s
        } else {
            &&& t == dir_opened(s, ino)
            &&& r == Ok::<(Option<u64>, u32), FsError>(
                (Some(s.next_handle), cache_flags(cfg, OPEN_CACHE_DIR)),
            )
        },
    }
}

/// The listing of a result.
pub open spec fn listing_of(r: Result<Vec<DirEntry>, FsError>) -> Result<
    Seq<DirEntryV>,
    FsError,
> {
    match r {
        Ok(entries) => Ok(listing_view(entries@)),
        Err(e) => Err(e),
    }
}

/// What becomes of the children the provider lists for the directory `ino` at
/// `dir`: they are the snapshot of the handle from now on, and its first page is
/// served.
pub open spec fn listed(
    s: FsState,
    ino: u64,
    handle: u64,
    dir: Seq<u8>,
    reply: Result<Vec<VDirEntry>, FsError>,
    size: u32,
    header: u64,
    t: FsState,
    r: Result<Vec<DirEntry>, FsError>,
) -> bool {
    match reply {
        Err(e) => listing_of(r) == Err::<Seq<DirEntryV>, FsError>(e) && t == s,
        Ok(children) => {
            let snapshot = snapshot_of(s.nodes, ino, dir, entry_views(children@));
            &&& t == snapshot_set(s, handle, Some(snapshot))
            &&& listing_of(r) == Ok::<Seq<DirEntryV>, FsError>(page_of(header, snapshot, 0, size))
        },
    }
}

/// Serving one page of a directory handle. A handle without a snapshot gets one
/// when it is read from the start; it cannot be continued in the middle.
pub open spec fn dir_served<P: PathFs>(
    p: P,
    s: FsState,
    ino: u64,
    handle: u64,
    size: u32,
    offset: u64,
    header: u64,
    t: FsState,
    r: Result<Vec<DirEntry>, FsError>,
) -> bool {
    if !s.dirs.contains_key(handle) {
        listing_of(r) == Err::<Seq<DirEntryV>, FsError>(FsError::Os(LINUX_EBADF)) && t == s
    } else {
        match s.dirs[handle].snapshot {
            Some(snapshot) => {
                &&& t == s
                &&& listing_of(r) == Ok::<Seq<DirEntryV>, FsError>(
                    page_of(header, snapshot, offset, size),
                )
            },
            None => if offset > 0 {
                listing_of(r) == Err::<Seq<DirEntryV>, FsError>(FsError::Os(LINUX_EAGAIN)) && t
                    == s
            } else {
                match path_lookup(s, ino) {
                    Err(e) => listing_of(r) == Err::<Seq<DirEntryV>, FsError>(e) && t == s,
                    Ok(dir) => exists|l: Result<Vec<VDirEntry>, FsError>| #[trigger]
                        replied_readdir(p, dir, l) && listed(
                            s,
                            ino,
                            handle,
                            dir,
                            l,
                            size,
                            header,
                            t,
                            r,
                        ),
                }
            },
        }
    }
}

/// Whether an entry is one of the two that the scaffold adds itself.
pub open spec fn is_dot_entry(name: Seq<u8>) -> bool {
    name == dot() || name == dotdot()
}

/// The entries of a page other than `.` and `..`.
pub open spec fn real_entries(entries: Seq<DirEntryV>) -> Seq<DirEntryV>
    decreases entries.len(),
{
    if entries.len() == 0 {
        Seq::empty()
    } else if is_dot_entry(entries.last().name) {
        real_entries(entries.drop_last())
    } else {
        real_entries(entries.drop_last()).push(entries.last())
    }
}

/// The paths of the entries of a page in the directory `dir`.
pub open spec fn entry_paths(dir: Seq<u8>, entries: Seq<DirEntryV>) -> Seq<Seq<u8>> {
    Seq::new(entries.len(), |i: int| joined(dir, entries[i].name))
}

/// The state after the first `n` children with attributes were referenced: a
/// child without attributes has vanished and is skipped.
pub open spec fn plus_state(
    s: FsState,
    paths: Seq<Seq<u8>>,
    attrs: Seq<Result<VAttr, FsError>>,
    n: int,
) -> FsState
    decreases n,
{
    if n <= 0 {
        s
    } else {
        let before = plus_state(s, paths, attrs, n - 1);
        match attrs[n - 1] {
            Ok(_) => referenced(before, paths[n - 1]),
            Err(_) => before,
        }
    }
}

/// Whether `out` are the `readdirplus` rows of the first `n` children: one for
/// each child with attributes, under the number of its node.
pub open spec fn is_plus(
    cfg: VirtualFsConfig,
    s: FsState,
    entries: Seq<DirEntryV>,
    paths: Seq<Seq<u8>>,
    attrs: Seq<Result<VAttr, FsError>>,
    n: int,
    out: Seq<(DirEntry, Entry)>,
) -> bool
    decreases n,
{
    if n <= 0 {
        out.len() == 0
    } else {
        match attrs[n - 1] {
            Err(_) => is_plus(cfg, s, entries, paths, attrs, n - 1, out),
            Ok(attr) => {
                let before = plus_state(s, paths, attrs, n - 1);
                let ino = referenced_inode(before, paths[n - 1]);
                &&& out.len() > 0
                &&& is_plus(cfg, s, entries, paths, attrs, n - 1, out.drop_last())
                &&& out.last().0@ == (DirEntryV { ino, ..entries[n - 1] })
                &&& is_entry(cfg, ino, attr, out.last().1)
            },
        }
    }
}

/// What becomes of the attributes `reply` for the children of a page.
pub open spec fn plus_result(
    cfg: VirtualFsConfig,
    s: FsState,
    dir: Seq<u8>,
    entries: Seq<DirEntryV>,
    reply: Result<Vec<Result<VAttr, FsError>>, FsError>,
    t: FsState,
    r: Result<Vec<(DirEntry, Entry)>, FsError>,
) -> bool {
    let children = real_entries(entries);
    match reply {
        Err(e) => r == Err::<Vec<(DirEntry, Entry)>, FsError>(e) && t == s,
        Ok(attrs) => if attrs@.len() != children.len() {
            r == Err::<Vec<(DirEntry, Entry)>, FsError>(FsError::Os(LINUX_EIO)) && t == s
        } else {
            let paths = entry_paths(dir, children);
            &&& t == plus_state(s, paths, attrs@, children.len() as int)
            &&& r matches Ok(out) && is_plus(
                cfg,
                s,
                children,
                paths,
                attrs@,
                children.len() as int,
                out@,
            )
        },
    }
}

/// A child that vanished before its attributes were fetched is not interned, and
/// nothing else outside the page is touched: only the paths of children with
/// attributes can gain an inode.
pub proof fn vanished_children_are_not_interned(
    s: FsState,
    paths: Seq<Seq<u8>>,
    attrs: Seq<Result<VAttr, FsError>>,
    n: int,
    path: Seq<u8>,
)
    requires
        consistent(s),
        numbered(s),
        0 <= n <= paths.len(),
        n <= attrs.len(),
        s.next_inode + n <= u64::MAX,
        forall|i: int| 0 <= i < n ==> shaped(#[trigger] paths[i]),
        forall|i: int| 0 <= i < n && #[trigger] paths[i] == path ==> attrs[i] is Err,
    ensures
        inode_at(plus_state(s, paths, attrs, n).nodes, path) == inode_at(s.nodes, path),
        consistent(plus_state(s, paths, attrs, n)),
        numbered(plus_state(s, paths, attrs, n)),
        plus_state(s, paths, attrs, n).next_inode <= s.next_inode + n,
    decreases n,
{
    if n > 0 {
        vanished_children_are_not_interned(s, paths, attrs, n - 1, path);
        let before = plus_state(s, paths, attrs, n - 1);
        if attrs[n - 1] is Ok {
            assert(paths[n - 1] != path);
            assert(shaped(paths[n - 1]));
            lookups_leave_other_paths_alone(before, paths[n - 1], path);
            referencing_keeps_consistency(before, paths[n - 1]);
        }
    }
}

/// What the guest gives up when it forgets the rows of the first `n` children,
/// the last one first: one reference for each child with attributes.
pub open spec fn plus_forgets(
    s: FsState,
    paths: Seq<Seq<u8>>,
    attrs: Seq<Result<VAttr, FsError>>,
    n: int,
) -> Seq<(u64, u64)>
    decreases n,
{
    if n <= 0 {
        Seq::empty()
    } else {
        let before = plus_forgets(s, paths, attrs, n - 1);
        match attrs[n - 1] {
            Ok(_) => seq![
                (referenced_inode(plus_state(s, paths, attrs, n - 1), paths[n - 1]), 1u64),
            ] + before,
            Err(_) => before,
        }
    }
}

/// Whether every node but the root is referenced, with room for `n` more
/// references.
pub open spec fn refs_bounded(nodes: Map<u64, NodeV>, n: int) -> bool {
    forall|i: u64| #[trigger]
        nodes.contains_key(i) && i != ROOT_INODE ==> 0 < nodes[i].refs && nodes[i].refs + n
            <= u64::MAX
}

/// The references that rows take leave room for the rows still to come.
proof fn lemma_plus_state(
    s: FsState,
    paths: Seq<Seq<u8>>,
    attrs: Seq<Result<VAttr, FsError>>,
    n: int,
    room: int,
)
    requires
        consistent(s),
        numbered(s),
        rooted(s),
        0 <= n <= paths.len(),
        n <= attrs.len(),
        n < room <= u64::MAX,
        s.next_inode + n <= u64::MAX,
        refs_bounded(s.nodes, room),
        forall|i: int| 0 <= i < n ==> shaped(#[trigger] paths[i]) && paths[i].len() > 1,
    ensures
        consistent(plus_state(s, paths, attrs, n)),
        numbered(plus_state(s, paths, attrs, n)),
        rooted(plus_state(s, paths, attrs, n)),
        plus_state(s, paths, attrs, n).next_inode <= s.next_inode + n,
        refs_bounded(plus_state(s, paths, attrs, n).nodes, room - n),
    decreases n,
{
    if n > 0 {
        lemma_plus_state(s, paths, attrs, n - 1, room);
        let before = plus_state(s, paths, attrs, n - 1);
        if attrs[n - 1] is Ok {
            assert(shaped(paths[n - 1]));
            referencing_keeps_consistency(before, paths[n - 1]);
            let after = referenced(before, paths[n - 1]);
            assert forall|i: u64| #[trigger]
                after.nodes.contains_key(i) && i != ROOT_INODE implies 0 < after.nodes[i].refs
                && after.nodes[i].refs + (room - n) <= u64::MAX by {
                if before.nodes.contains_key(i) {
                    assert(after.nodes[i].refs <= before.nodes[i].refs + 1);
                }
            }
        }
    }
}

/// The guest can give back what `readdirplus` took: forgetting every row leaves
/// everything as it was, except that numbers may have been used.
pub proof fn readdirplus_rows_can_be_forgotten(
    s: FsState,
    paths: Seq<Seq<u8>>,
    attrs: Seq<Result<VAttr, FsError>>,
    n: int,
)
    requires
        consistent(s),
        numbered(s),
        rooted(s),
        0 <= n <= paths.len(),
        n <= attrs.len(),
        s.next_inode + n <= u64::MAX,
        refs_bounded(s.nodes, n + 1),
        forall|i: int| 0 <= i < n ==> shaped(#[trigger] paths[i]) && paths[i].len() > 1,
    ensures
        all_forgotten(plus_state(s, paths, attrs, n), plus_forgets(s, paths, attrs, n)) == (
        FsState { next_inode: plus_state(s, paths, attrs, n).next_inode, ..s }),
    decreases n,
{
    if n > 0 {
        let before = plus_state(s, paths, attrs, n - 1);
        let after = plus_state(s, paths, attrs, n);
        readdirplus_rows_can_be_forgotten(s, paths, attrs, n - 1);
        lemma_plus_state(s, paths, attrs, n - 1, n + 1);
        let earlier = plus_forgets(s, paths, attrs, n - 1);
        if attrs[n - 1] is Ok {
            let path = paths[n - 1];
            assert(shaped(path));
            if let Some(i) = inode_at(before.nodes, path) {
                lemma_named(before, path, i);
            }
            forget_undoes_lookup(before, path);
            let ino = referenced_inode(before, path);
            lemma_forgets_first(after, ino, earlier);
            lemma_forgets_ignore_numbers(before, after.next_inode, earlier);
        }
    }
}

/// The inode at a path other than the root is a node that has that path, and not
/// the root.
proof fn lemma_named(s: FsState, path: Seq<u8>, ino: u64)
    requires
        rooted(s),
        path.len() > 1,
        inode_at(s.nodes, path) == Some(ino),
    ensures
        is_at(s.nodes, ino, path),
        ino != ROOT_INODE,
{
    let some = choose|i: u64| #[trigger] is_at(s.nodes, i, path);
    lemma_inode_at_some(s.nodes, some, path);
}

/// Giving up one more reference first is giving it up and then the others.
proof fn lemma_forgets_first(s: FsState, ino: u64, rest: Seq<(u64, u64)>)
    ensures
        all_forgotten(s, seq![(ino, 1u64)] + rest) == all_forgotten(forgotten(s, ino, 1), rest),
    decreases rest.len(),
{
    let all = seq![(ino, 1u64)] + rest;
    if rest.len() == 0 {
        assert(all.drop_last() =~= Seq::<(u64, u64)>::empty());
        assert(all_forgotten(s, Seq::<(u64, u64)>::empty()) == s);
    } else {
        assert(all.drop_last() =~= seq![(ino, 1u64)] + rest.drop_last());
        lemma_forgets_first(s, ino, rest.drop_last());
    }
}

/// What is forgotten does not depend on the next number to hand out.
proof fn lemma_forgets_ignore_numbers(s: FsState, next_inode: u64, requests: Seq<(u64, u64)>)
    ensures
        all_forgotten(FsState { next_inode, ..s }, requests) == (FsState {
            next_inode,
            ..all_forgotten(s, requests)
        }),
    decreases requests.len(),
{
    if requests.len() > 0 {
        lemma_forgets_ignore_numbers(s, next_inode, requests.drop_last());
    }
}

/// Entries taken from a listing with proper names have proper names.
proof fn lemma_page_names(entries: Seq<DirEntryV>, page: Seq<DirEntryV>)
    requires
        names_proper(entries),
        forall|j: int| 0 <= j < page.len() ==> entries.contains(#[trigger] page[j]),
    ensures
        names_proper(page),
{
    assert forall|j: int| 0 <= j < page.len() implies {
        ||| (#[trigger] page[j]).name == dot()
        ||| page[j].name == dotdot()
        ||| readdir_name_check(page[j].name) is Ok
    } by {
        assert(entries.contains(page[j]));
        let k = choose|k: int| 0 <= k < entries.len() && entries[k] == page[j];
        assert(entries[k] == page[j]);
    }
}

/// The real entries of a listing with proper names have valid names.
proof fn lemma_real_entries_valid(entries: Seq<DirEntryV>)
    requires
        names_proper(entries),
    ensures
        forall|i: int|
            0 <= i < real_entries(entries).len() ==> readdir_name_check(
                (#[trigger] real_entries(entries)[i]).name,
            ) is Ok,
    decreases entries.len(),
{
    if entries.len() > 0 {
        let front = entries.drop_last();
        assert forall|i: int| 0 <= i < front.len() implies {
            ||| (#[trigger] front[i]).name == dot()
            ||| front[i].name == dotdot()
            ||| readdir_name_check(front[i].name) is Ok
        } by {
            assert(front[i] == entries[i]);
        }
        lemma_real_entries_valid(front);
        let kept = real_entries(entries);
        assert forall|i: int| 0 <= i < kept.len() implies readdir_name_check(
            (#[trigger] kept[i]).name,
        ) is Ok by {
            if i < real_entries(front).len() {
                assert(kept[i] == real_entries(front)[i]);
            } else {
                assert(kept[i] == entries[entries.len() - 1]);
            }
        }
    }
}

/// Keep the entries other than `.` and `..`.
fn drop_dot_entries(entries: &Vec<DirEntry>) -> (r: Vec<DirEntry>)
    ensures
        listing_view(r@) == real_entries(listing_view(entries@)),
{
    let ghost all = listing_view(entries@);
    let mut r: Vec<DirEntry> = Vec::new();
    let mut i: usize = 0;
    assert(listing_view(r@) =~= real_entries(all.take(0)));
    while i < entries.len()
        invariant
            i <= entries.len(),
            all == listing_view(entries@),
            listing_view(r@) == real_entries(all.take(i as int)),
        decreases entries.len() - i,
    {
        let e = &entries[i];
        assert(all.take(i + 1).drop_last() =~= all.take(i as int));
        assert(all.take(i + 1).last() == e@);
        if !is_dot(e.name.as_slice()) && !is_dotdot(e.name.as_slice()) {
            let ghost before = listing_view(r@);
            r.push(
                DirEntry {
                    ino: e.ino,
                    offset: e.offset,
                    type_: e.type_,
                    name: copy_bytes(e.name.as_slice()),
                },
            );
            assert(listing_view(r@) =~= before.push(e@));
        }
        i += 1;
    }
    assert(all.take(all.len() as int) =~= all);
    r
}

/// The paths of the entries of a page.
fn child_paths(dir: &[u8], entries: &Vec<DirEntry>) -> (r: Vec<Vec<u8>>)
    ensures
        views(r@) == entry_paths(dir@, listing_view(entries@)),
{
    let mut r: Vec<Vec<u8>> = Vec::new();
    let mut i: usize = 0;
    while i < entries.len()
        invariant
            i <= entries.len(),
            r.len() == i,
            forall|j: int| 0 <= j < i ==> (#[trigger] r@[j])@ == joined(dir@, entries@[j].name@),
        decreases entries.len() - i,
    {
        r.push(join(dir, entries[i].name.as_slice()));
        i += 1;
    }
    assert(views(r@) =~= entry_paths(dir@, listing_view(entries@)));
    r
}

/// Slices of a list of byte strings.
fn slices_of(paths: &Vec<Vec<u8>>) -> (r: Vec<&[u8]>)
    ensures
        slice_views(r@) == views(paths@),
{
    let mut r: Vec<&[u8]> = Vec::new();
    let mut i: usize = 0;
    while i < paths.len()
        invariant
            i <= paths.len(),
            r.len() == i,
            forall|j: int| 0 <= j < i ==> (#[trigger] r@[j])@ == paths@[j]@,
        decreases paths.len() - i,
    {
        r.push(paths[i].as_slice());
        i += 1;
    }
    assert(slice_views(r@) =~= views(paths@));
    r
}

impl<P: PathFs> VirtualFs<P> {
    /// Hand out a directory handle, if the node is a directory.
    pub fn opendir_reply(&mut self, ino: u64, reply: Result<VAttr, FsError>) -> (r: Result<
        (Option<u64>, u32),
        FsError,
    >)
        ensures
            final(self).same_setup(old(self)),
            dir_open_result(old(self).config(), old(self)@, ino, reply, final(self)@, r),
            old(self)@.nodes.contains_key(ino) ==> kept(old(self)@, final(self)@),
    {
        match reply {
            Err(e) => Err(e),
            Ok(attr) => {
                if attr.kind != NodeKind::Dir {
                    return Err(enotdir());
                }
                proof {
                    if consistent(self@) {
                        handles_keep_consistency(self@, ino, Seq::empty(), 0, None);
                    }
                }
                let handle = self.tables_mut().open_dir(ino);
                Ok((Some(handle), self.cache_options(OPEN_CACHE_DIR)))
            },
        }
    }

    /// Open a directory.
    pub fn do_opendir(&mut self, ino: u64) -> (r: Result<(Option<u64>, u32), FsError>)
        ensures
            final(self).same_setup(old(self)),
            match path_lookup(old(self)@, ino) {
                Err(e) => r == Err::<(Option<u64>, u32), FsError>(e) && final(self)@ == old(self)@,
                Ok(path) => exists|a: Result<VAttr, FsError>| #[trigger]
                    replied_getattr(old(self).backend(), path, a) && dir_open_result(
                        old(self).config(),
                        old(self)@,
                        ino,
                        a,
                        final(self)@,
                        r,
                    ),
            },
            kept(old(self)@, final(self)@),
    {
        match self.path_of(ino) {
            Err(e) => Err(e),
            Ok(path) => {
                let a = self.provider().getattr(path.as_slice());
                assert(replied_getattr(self.backend(), path_lookup(self@, ino)->Ok_0, a));
                self.opendir_reply(ino, a)
            },
        }
    }

    /// Make the children the provider lists the snapshot of an open directory
    /// handle, and serve its first page.
    pub fn list_reply(
        &mut self,
        ino: u64,
        handle: u64,
        dir_path: &[u8],
        reply: Result<Vec<VDirEntry>, FsError>,
        size: u32,
        header_bytes: u64,
    ) -> (r: Result<Vec<DirEntry>, FsError>)
        requires
            old(self)@.dirs.contains_key(handle),
        ensures
            final(self).same_setup(old(self)),
            listed(
                old(self)@,
                ino,
                handle,
                dir_path@,
                reply,
                size,
                header_bytes,
                final(self)@,
                r,
            ),
            r matches Ok(page) ==> names_proper(listing_view(page@)),
            kept(old(self)@, final(self)@),
    {
        match reply {
            Err(e) => Err(e),
            Ok(children) => {
                let snapshot = build_snapshot(self.tables(), ino, dir_path, &children);
                let page = serve_page(snapshot.as_slice(), 0, size, header_bytes);
                proof {
                    assert(listing_view(snapshot@).len() == snapshot.len());
                    built_snapshots_are_proper(
                        self@.nodes,
                        ino,
                        dir_path@,
                        entry_views(children@),
                    );
                    lemma_page_names(listing_view(snapshot@), listing_view(page@));
                    if consistent(self@) {
                        handles_keep_consistency(
                            self@,
                            ino,
                            Seq::empty(),
                            handle,
                            Some(listing_view(snapshot@)),
                        );
                    }
                }
                self.tables_mut().set_snapshot(handle, Some(snapshot));
                Ok(page)
            },
        }
    }

    /// Build (on first call) and serve one page of a directory handle's entry
    /// snapshot, bounded to `size` bytes of `header_bytes`-per-entry dirents, so
    /// that the page always fits the kernel's reply buffer.
    pub fn serve_dir(
        &mut self,
        ino: u64,
        handle: u64,
        size: u32,
        offset: u64,
        header_bytes: u64,
    ) -> (r: Result<Vec<DirEntry>, FsError>)
        ensures
            final(self).same_setup(old(self)),
            dir_served(
                old(self).backend(),
                old(self)@,
                ino,
                handle,
                size,
                offset,
                header_bytes,
                final(self)@,
                r,
            ),
            kept(old(self)@, final(self)@),
            consistent(old(self)@) ==> (r matches Ok(page) ==> names_proper(
                listing_view(page@),
            )),
    {
        match self.tables().dir_handle(handle) {
            None => {
                return Err(ebadf());
            },
            Some(d) => match &d.snapshot {
                Some(snapshot) => {
                    let page = serve_page(snapshot.as_slice(), offset, size, header_bytes);
                    proof {
                        if consistent(self@) {
                            assert(self@.dirs.contains_key(handle));
                            lemma_page_names(listing_view(snapshot@), listing_view(page@));
                        }
                    }
                    return Ok(page);
                },
                None => {},
            },
        }
        if offset > 0 {
            return Err(eagain());
        }
        match self.path_of(ino) {
            Err(e) => Err(e),
            Ok(dir_path) => {
                let l = self.provider().readdir(dir_path.as_slice());
                assert(replied_readdir(self.backend(), path_lookup(self@, ino)->Ok_0, l));
                self.list_reply(ino, handle, dir_path.as_slice(), l, size, header_bytes)
            },
        }
    }

    /// Read one page of a directory.
    pub fn do_readdir(&mut self, ino: u64, handle: u64, size: u32, offset: u64) -> (r: Result<
        Vec<DirEntry>,
        FsError,
    >)
        ensures
            final(self).same_setup(old(self)),
            dir_served(
                old(self).backend(),
                old(self)@,
                ino,
                handle,
                size,
                offset,
                FUSE_DIRENT_HEADER,
                final(self)@,
                r,
            ),
            kept(old(self)@, final(self)@),
    {
        self.serve_dir(ino, handle, size, offset, FUSE_DIRENT_HEADER)
    }

    /// Reference the children of a page that have attributes, and build their
    /// rows. A child that vanished since the snapshot is skipped before it is
    /// referenced.
    pub fn plus_reply(
        &mut self,
        dir_path: &[u8],
        entries: Vec<DirEntry>,
        reply: Result<Vec<Result<VAttr, FsError>>, FsError>,
    ) -> (r: Result<Vec<(DirEntry, Entry)>, FsError>)
        ensures
            final(self).same_setup(old(self)),
            plus_result(
                old(self).config(),
                old(self)@,
                dir_path@,
                listing_view(entries@),
                reply,
                final(self)@,
                r,
            ),
            shaped(dir_path@) && names_proper(listing_view(entries@)) ==> kept(
                old(self)@,
                final(self)@,
            ),
    {
        let children = drop_dot_entries(&entries);
        let attrs = match reply {
            Err(e) => {
                return Err(e);
            },
            Ok(attrs) => attrs,
        };
        assert(listing_view(children@).len() == children@.len());
        if attrs.len() != children.len() {
            return Err(eio());
        }
        let ghost s = self@;
        let ghost cfg = self.config();
        let ghost rows = listing_view(children@);
        let ghost paths = entry_paths(dir_path@, rows);
        let ghost sound = consistent(s) && shaped(dir_path@) && names_proper(
            listing_view(entries@),
        );
        proof {
            if sound {
                lemma_real_entries_valid(listing_view(entries@));
            }
        }
        let mut out: Vec<(DirEntry, Entry)> = Vec::new();
        let mut i: usize = 0;
        let ghost mut taken: int = 0;
        while i < children.len()
            invariant
                i <= children.len(),
                attrs.len() == children.len(),
                rows == listing_view(children@),
                paths == entry_paths(dir_path@, rows),
                cfg == self.config(),
                self.same_setup(old(self)),
                self@ == plus_state(s, paths, attrs@, i as int),
                is_plus(cfg, s, rows, paths, attrs@, i as int, out@),
                sound ==> consistent(self@) && shaped(dir_path@),
                0 <= taken <= i,
                s.next_inode + taken <= u64::MAX ==> self@.next_inode == s.next_inode + taken && (
                sound && numbered(s) ==> numbered(self@) && (rooted(s) ==> rooted(self@))),
                self@.next_handle == s.next_handle,
                sound && handles_numbered(s) ==> handles_numbered(self@),
                s.next_inode + taken > u64::MAX ==> self@.next_inode == s.next_inode + taken
                    - u64::MAX - 1,
                sound ==> forall|j: int|
                    0 <= j < rows.len() ==> readdir_name_check((#[trigger] rows[j]).name) is Ok,
            decreases children.len() - i,
        {
            match &attrs[i] {
                Err(_) => {},
                Ok(attr) => {
                    let de = &children[i];
                    let child = join(dir_path, de.name.as_slice());
                    assert(child@ == paths[i as int]);
                    proof {
                        if sound {
                            assert(rows[i as int].name == de.name@);
                            lemma_shaped_child(dir_path@, de.name@);
                            referencing_keeps_consistency(self@, child@);
                        }
                    }
                    let ghost before = out@;
                    let ghost known = inode_at(self@.nodes, child@) is Some;
                    let ino = self.tables_mut().intern_and_reference(child);
                    proof {
                        if !known {
                            taken = taken + 1;
                        }
                    }
                    let entry = self.build_entry(ino, attr);
                    let row = DirEntry {
                        ino,
                        offset: de.offset,
                        type_: de.type_,
                        name: copy_bytes(de.name.as_slice()),
                    };
                    out.push((row, entry));
                    assert(out@.drop_last() =~= before);
                },
            }
            i += 1;
        }
        Ok(out)
    }

    /// Read one page of a directory together with the attributes of its entries.
    pub fn do_readdirplus(&mut self, ino: u64, handle: u64, size: u32, offset: u64) -> (r: Result<
        Vec<(DirEntry, Entry)>,
        FsError,
    >)
        ensures
            final(self).same_setup(old(self)),
            match path_lookup(old(self)@, ino) {
                Err(e) => r == Err::<Vec<(DirEntry, Entry)>, FsError>(e) && final(self)@
                    == old(self)@,
                Ok(dir) => exists|mid: FsState, page: Result<Vec<DirEntry>, FsError>| #[trigger]
                    dir_served(
                        old(self).backend(),
                        old(self)@,
                        ino,
                        handle,
                        size,
                        offset,
                        FUSE_DIRENTPLUS_HEADER,
                        mid,
                        page,
                    ) && (match page {
                        Err(e) => r == Err::<Vec<(DirEntry, Entry)>, FsError>(e) && final(self)@
                            == mid,
                        Ok(entries) => exists|
                            a: Result<Vec<Result<VAttr, FsError>>, FsError>,
                        | #[trigger]
                            replied_getattr_many(
                                old(self).backend(),
                                entry_paths(dir, real_entries(listing_view(entries@))),
                                a,
                            ) && plus_result(
                                old(self).config(),
                                mid,
                                dir,
                                listing_view(entries@),
                                a,
                                final(self)@,
                                r,
                            ),
                    }),
            },
            kept(old(self)@, final(self)@),
    {
        let dir_path = match self.path_of(ino) {
            Err(e) => {
                return Err(e);
            },
            Ok(path) => path,
        };
        proof {
            if consistent(self@) {
                resolved_paths_are_shaped(self@, ino, Seq::empty());
            }
        }
        let page = self.serve_dir(ino, handle, size, offset, FUSE_DIRENTPLUS_HEADER);
        let ghost mid = self@;
        assert(dir_served(
            old(self).backend(),
            old(self)@,
            ino,
            handle,
            size,
            offset,
            FUSE_DIRENTPLUS_HEADER,
            mid,
            page,
        ));
        match page {
            Err(e) => Err(e),
            Ok(entries) => {
                let children = drop_dot_entries(&entries);
                let paths = child_paths(dir_path.as_slice(), &children);
                let refs = slices_of(&paths);
                let a = self.provider().getattr_many(refs.as_slice());
                assert(replied_getattr_many(
                    old(self).backend(),
                    entry_paths(
                        path_lookup(old(self)@, ino)->Ok_0,
                        real_entries(listing_view(entries@)),
                    ),
                    a,
                ));
                self.plus_reply(dir_path.as_slice(), entries, a)
            },
        }
    }

    /// Refresh the listing of an open directory.
    pub fn do_fsyncdir(&mut self, ino: u64, handle: u64) -> (r: Result<(), FsError>)
        ensures
            final(self).same_setup(old(self)),
            if !old(self)@.dirs.contains_key(handle) || old(self)@.dirs[handle].inode != ino {
                r == Err::<(), FsError>(FsError::Os(LINUX_EBADF)) && final(self)@ == old(self)@
            } else {
                match path_lookup(old(self)@, ino) {
                    Err(e) => r == Err::<(), FsError>(e) && final(self)@ == old(self)@,
                    Ok(path) => replied_fsyncdir(old(self).backend(), path, r) && final(self)@ == (
                    if r is Ok {
                        snapshot_set(old(self)@, handle, None)
                    } else {
                        old(self)@
                    }),
                }
            },
            kept(old(self)@, final(self)@),
    {
        match self.tables().dir_handle(handle) {
            None => {
                return Err(ebadf());
            },
            Some(d) => {
                if d.inode != ino {
                    return Err(ebadf());
                }
            },
        }
        match self.path_of(ino) {
            Err(e) => Err(e),
            Ok(path) => {
                let a = self.provider().fsyncdir(path.as_slice());
                assert(replied_fsyncdir(self.backend(), path_lookup(self@, ino)->Ok_0, a));
                if a.is_ok() {
                    proof {
                        if consistent(self@) {
                            handles_keep_consistency(self@, ino, Seq::empty(), handle, None);
                        }
                    }
                    self.tables_mut().set_snapshot(handle, None);
                }
                a
            },
        }
    }

    /// Close a directory handle.
    pub fn do_releasedir(&mut self, handle: u64) -> (r: Result<(), FsError>)
        ensures
            final(self).same_setup(old(self)),
            r == Ok::<(), FsError>(()),
            final(self)@ == (FsState { dirs: old(self)@.dirs.remove(handle), ..old(self)@ }),
            kept(old(self)@, final(self)@),
    {
        proof {
            if consistent(self@) {
                handles_keep_consistency(self@, 0, Seq::empty(), handle, None);
            }
        }
        self.tables_mut().close_dir(handle);
        Ok(())
    }
}

} // verus!
