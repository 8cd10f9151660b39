//! Directory listings: what they show, and the pages that they are read in.

use super::attributes::lemma_entry;
use super::files::caches_as;
use super::naming::{lemma_names_child, lemma_readdir_name};
use super::references::{handles_same, lemma_gained};
use super::{entry_tells, getattr_is, names_child, node_at, proper_name, readdir_is};
use crate::abi::{DirEntry, DirEntryV, Entry};
use crate::bytes::{dot, dotdot, root};
use crate::config::VirtualFsConfig;
use crate::dirent::{
    child_rows, first_free_salt, fnv1a, listing_rows, numbered_from_one, own_inode, provisional,
    provisional_inode, provisional_numbers_are_apart, salted, shown_inodes, snapshot_of,
    snapshots_are_well_numbered, RowV, FNV_PRIME,
};
use crate::error::FsError;
use crate::invariants::{
    a_path_names_one_inode, built_snapshots_are_proper, consistent, handles_keep_consistency,
    names_proper, numbered, referencing_keeps_consistency, snapshot_proper,
};
use crate::name_validation::readdir_name_check;
use crate::paging::{
    entries_past, entry_cost, is_page, page_cost, page_of, page_start, pages_are_determined,
    pages_are_stretches, serve_page,
};
use crate::path_fs::{entry_views, NodeKind, PathFs, VAttr, VDirEntry, VDirEntryV};
use crate::paths::{
    child_path_is_valid, children_stay_in_their_directory, joined, lemma_shaped_child, parent_of,
    shaped, tombstones_are_private,
};
use crate::replies::{replied_getattr_many, replied_readdir};
use crate::tables::{inode_at, is_at, listing_view, referenced_inode, FsState};
use crate::vfs::VirtualFs;
use crate::vfs::dir_ops::{
    dir_served, entry_paths, is_plus, listed, plus_result, plus_state, real_entries,
};
use vstd::prelude::*;

verus! {

/// The least multiple of eight that is at least `n`.
pub open spec fn eights(n: int) -> int {
    if n % 8 == 0 {
        n
    } else {
        n + 8 - n % 8
    }
}

/// The room that entries take in a reply: for each one the header and the name, padded
/// to a multiple of eight bytes.
pub open spec fn room(header: u64, entries: Seq<DirEntryV>) -> int
    decreases entries.len(),
{
    if entries.len() == 0 {
        0
    } else {
        eights(header + entries[0].name.len()) + room(header, entries.skip(1))
    }
}

/// The bytes of entries without any padding.
pub open spec fn bare_room(header: u64, entries: Seq<DirEntryV>) -> int
    decreases entries.len(),
{
    if entries.len() == 0 {
        0
    } else {
        header + entries[0].name.len() + bare_room(header, entries.skip(1))
    }
}

/// Whether `page` is the page of a listing past the cookie `offset` for a buffer of
/// `size` bytes: the entries that follow it, as many as the buffer has room for, but at
/// least one where any is left.
pub open spec fn page_fits(
    header: u64,
    entries: Seq<DirEntryV>,
    offset: u64,
    size: u32,
    page: Seq<DirEntryV>,
) -> bool {
    let end = offset + page.len();
    &&& end <= entries.len()
    &&& page == entries.subrange(offset as int, end)
    &&& offset < entries.len() ==> page.len() > 0
    &&& page.len() > 1 ==> room(header, page) <= size
    &&& 0 < page.len() && end < entries.len() ==> room(
        header,
        entries.subrange(offset as int, end + 1),
    ) > size
}

/// The room of a list is that of its front and its last entry.
proof fn lemma_room_last(header: u64, entries: Seq<DirEntryV>)
    requires
        entries.len() > 0,
    ensures
        room(header, entries) == room(header, entries.drop_last()) + eights(
            header + entries.last().name.len(),
        ),
    decreases entries.len(),
{
    if entries.len() > 1 {
        lemma_room_last(header, entries.skip(1));
        assert(entries.skip(1).drop_last() =~= entries.drop_last().skip(1));
    } else {
        assert(entries.skip(1) =~= Seq::<DirEntryV>::empty());
        assert(entries.drop_last() =~= Seq::<DirEntryV>::empty());
    }
}

/// The cost of a stretch is the room that it takes.
proof fn lemma_room(header: u64, entries: Seq<DirEntryV>, start: int, end: int)
    requires
        0 <= start <= end <= entries.len(),
    ensures
        page_cost(header, entries, start, end) == room(header, entries.subrange(start, end)),
    decreases end - start,
{
    let part = entries.subrange(start, end);
    if start < end {
        lemma_room_last(header, part);
        assert(part.drop_last() =~= entries.subrange(start, end - 1));
        lemma_room(header, entries, start, end - 1);
        assert(entry_cost(header, entries[end - 1]) == eights(
            header + entries[end - 1].name.len(),
        ));
    }
}

/// Padding only adds.
proof fn lemma_bare_room(header: u64, entries: Seq<DirEntryV>)
    ensures
        0 <= bare_room(header, entries) <= room(header, entries),
        header >= 8 ==> bare_room((header - 8) as u64, entries) + 8 * entries.len() == bare_room(
            header,
            entries,
        ),
    decreases entries.len(),
{
    if entries.len() > 0 {
        lemma_bare_room(header, entries.skip(1));
    }
}

/// The page that is served is the one that fits, and no other page is.
proof fn lemma_page(
    header: u64,
    entries: Seq<DirEntryV>,
    offset: u64,
    size: u32,
    page: Seq<DirEntryV>,
)
    requires
        numbered_from_one(entries),
        offset <= entries.len(),
    ensures
        page_fits(header, entries, offset, size, page_of(header, entries, offset, size)),
        page_fits(header, entries, offset, size, page) ==> page == page_of(
            header,
            entries,
            offset,
            size,
        ),
{
    pages_are_stretches(header, entries, offset, size);
    let served = page_of(header, entries, offset, size);
    let end = offset + served.len();
    lemma_room(header, entries, offset as int, end);
    if end < entries.len() {
        lemma_room(header, entries, offset as int, end + 1);
    }
    if page_fits(header, entries, offset, size, page) {
        let other = offset + page.len();
        lemma_room(header, entries, offset as int, other);
        if other < entries.len() {
            lemma_room(header, entries, offset as int, other + 1);
        }
        assert(is_page(header, entries, size, offset as int, end));
        assert(is_page(header, entries, size, offset as int, other));
        pages_are_determined(header, entries, size, offset as int, end, other);
    }
}

/// A page is the stretch of the listing behind the cookie that the buffer has room for.
/// More than one entry never takes more bytes than the buffer has, and one entry less
/// than what is served would always leave room for one more.
pub proof fn pages_fill_the_buffer(
    entries: &[DirEntry],
    offset: u64,
    size: u32,
    header: u64,
    r: Vec<DirEntry>,
)
    requires
        numbered_from_one(listing_view(entries@)),
        offset <= entries@.len(),
        call_ensures(serve_page, (entries, offset, size, header), r),
    ensures
        page_fits(header, listing_view(entries@), offset, size, listing_view(r@)),
        r@.len() > 1 ==> bare_room(header, listing_view(r@)) <= size,
{
    lemma_page(header, listing_view(entries@), offset, size, Seq::empty());
    lemma_bare_room(header, listing_view(r@));
}

/// Where every cookie is at or before `offset`, no page starts.
proof fn lemma_all_before(entries: Seq<DirEntryV>, offset: u64)
    requires
        forall|i: int| 0 <= i < entries.len() ==> (#[trigger] entries[i]).offset <= offset,
    ensures
        page_start(entries, offset) == entries.len(),
        entries_past(entries, offset).len() == 0,
    decreases entries.len(),
{
    if entries.len() > 0 {
        let rest = entries.skip(1);
        assert forall|i: int| 0 <= i < rest.len() implies (#[trigger] rest[i]).offset
            <= offset by {
            assert(rest[i] == entries[i + 1]);
        }
        lemma_all_before(rest, offset);
        let front = entries.drop_last();
        assert forall|i: int| 0 <= i < front.len() implies (#[trigger] front[i]).offset
            <= offset by {
            assert(front[i] == entries[i]);
        }
        lemma_all_before(front, offset);
        assert(entries[0].offset <= offset);
        assert(entries[entries.len() - 1].offset <= offset);
    }
}

/// At the end of a listing and behind it there is no page.
pub proof fn nothing_follows_the_end(
    entries: &[DirEntry],
    offset: u64,
    size: u32,
    header: u64,
    r: Vec<DirEntry>,
)
    requires
        numbered_from_one(listing_view(entries@)),
        offset >= entries@.len(),
        call_ensures(serve_page, (entries, offset, size, header), r),
    ensures
        r@.len() == 0,
{
    lemma_no_page(header, listing_view(entries@), offset, size);
    assert(listing_view(r@).len() == r@.len());
}

/// At the end of a listing and behind it, the page is empty.
proof fn lemma_no_page(header: u64, all: Seq<DirEntryV>, offset: u64, size: u32)
    requires
        numbered_from_one(all),
        offset >= all.len(),
    ensures
        page_of(header, all, offset, size).len() == 0,
{
    assert forall|i: int| 0 <= i < all.len() implies (#[trigger] all[i]).offset <= offset by {}
    lemma_all_before(all, offset);
    let start = page_start(all, offset);
    assert(is_page(header, all, size, start, start));
    let end = choose|end: int| is_page(header, all, size, start, end);
    assert(all.take(end) =~= all);
}

/// The type that a listing shows for a kind of node.
pub open spec fn shown_type(kind: NodeKind) -> int {
    match kind {
        NodeKind::Fifo => 1,
        NodeKind::Char => 2,
        NodeKind::Dir => 4,
        NodeKind::Block => 6,
        NodeKind::File => 8,
        NodeKind::Symlink => 10,
        NodeKind::Socket => 12,
    }
}

/// Whether the guest can see a child of that name in a directory: the name is proper and
/// the path not too long.
pub open spec fn can_be_seen(dir: Seq<u8>, name: Seq<u8>) -> bool {
    proper_name(name) && name.len() + 1 + (if dir == seq![47u8] {
        0
    } else {
        dir.len()
    }) <= 4096
}

/// The children that the guest can see, in the order of the provider.
pub open spec fn visible(dir: Seq<u8>, children: Seq<(Seq<u8>, NodeKind)>) -> Seq<
    (Seq<u8>, NodeKind),
>
    decreases children.len(),
{
    if children.len() == 0 {
        Seq::empty()
    } else if can_be_seen(dir, children[0].0) {
        seq![children[0]] + visible(dir, children.skip(1))
    } else {
        visible(dir, children.skip(1))
    }
}

/// The visible children of a list are those of its front and the last one.
proof fn lemma_visible_last(dir: Seq<u8>, children: Seq<(Seq<u8>, NodeKind)>)
    requires
        children.len() > 0,
    ensures
        visible(dir, children) == (if can_be_seen(dir, children.last().0) {
            visible(dir, children.drop_last()).push(children.last())
        } else {
            visible(dir, children.drop_last())
        }),
    decreases children.len(),
{
    let front = children.drop_last();
    if children.len() > 1 {
        lemma_visible_last(dir, children.skip(1));
        assert(children.skip(1).drop_last() =~= front.skip(1));
        assert(children.skip(1).last() == children.last());
    } else {
        assert(children.skip(1) =~= Seq::<(Seq<u8>, NodeKind)>::empty());
        assert(front =~= Seq::<(Seq<u8>, NodeKind)>::empty());
    }
    assert(visible(dir, children) =~= (if can_be_seen(dir, children.last().0) {
        visible(dir, front).push(children.last())
    } else {
        visible(dir, front)
    }));
}

/// Whether the guest knows no child `name` of `dir`.
pub open spec fn unknown_child(s: FsState, dir: Seq<u8>, name: Seq<u8>) -> bool {
    forall|j: u64, path: Seq<u8>|
        names_child(path, dir, name) ==> !#[trigger] node_at(s, j, path)
}

/// Whether `entries` list the directory `ino` at `dir` with these children: `.` and
/// `..`, then every visible child once, in order, with its kind, and cookies that count
/// from one. A child that the guest knows is shown under its inode, unless a line before
/// it shows that number already; any other under a number of the upper half, where no
/// inode is until the lower half is used up. No number is shown twice.
pub open spec fn lists(
    s: FsState,
    ino: u64,
    dir: Seq<u8>,
    children: Seq<(Seq<u8>, NodeKind)>,
    entries: Seq<DirEntryV>,
) -> bool {
    let seen = visible(dir, children);
    &&& entries.len() == seen.len() + 2
    &&& entries[0].name == seq![46u8]
    &&& entries[0].type_ == 4
    &&& entries[0].ino == ino
    &&& entries[1].name == seq![46u8, 46u8]
    &&& entries[1].type_ == 4
    &&& forall|i: int| 0 <= i < entries.len() ==> (#[trigger] entries[i]).offset == i + 1
    &&& forall|k: int|
        0 <= k < seen.len() ==> (#[trigger] seen[k]).0 == entries[k + 2].name && shown_type(
            seen[k].1,
        ) == entries[k + 2].type_
    &&& forall|k: int, j: u64, path: Seq<u8>|
        0 <= k < seen.len() && #[trigger] node_at(s, j, path) && names_child(
            path,
            dir,
            (#[trigger] seen[k]).0,
        ) && (forall|m: int| 0 <= m < k + 2 ==> (#[trigger] entries[m]).ino != j) ==> entries[k
            + 2].ino == j
    &&& forall|j: u64, path: Seq<u8>, name: Seq<u8>| #[trigger]
        node_at(s, j, path) && #[trigger] names_child(dir, path, name) && proper_name(name) && j
            != ino ==> entries[1].ino == j
    &&& forall|k: int|
        0 <= k < seen.len() && unknown_child(s, dir, (#[trigger] seen[k]).0) ==> entries[k + 2].ino
            >= 0x8000_0000_0000_0000
    &&& forall|i: int, j: int|
        0 <= i < j < entries.len() ==> (#[trigger] entries[i]).ino != (#[trigger] entries[j]).ino
}

/// The lines of the visible children.
proof fn lemma_rows(
    s: FsState,
    dir: Seq<u8>,
    children: Seq<VDirEntryV>,
    named: Seq<(Seq<u8>, NodeKind)>,
)
    requires
        shaped(dir),
        named.len() == children.len(),
        forall|i: int|
            0 <= i < named.len() ==> (#[trigger] named[i]).0 == children[i].name && named[i].1
                == children[i].kind,
    ensures
        child_rows(s.nodes, dir, children).len() == visible(dir, named).len(),
        forall|k: int|
            0 <= k < visible(dir, named).len() ==> {
                let row = child_rows(s.nodes, dir, children)[k];
                &&& (#[trigger] visible(dir, named)[k]).0 == row.name
                &&& shown_type(visible(dir, named)[k].1) == row.type_
                &&& row.path == joined(dir, row.name)
                &&& row.base == own_inode(s.nodes, row.path)
            },
        forall|k: int|
            0 <= k < visible(dir, named).len() ==> proper_name(
                (#[trigger] visible(dir, named)[k]).0,
            ),
    decreases children.len(),
{
    if children.len() > 0 {
        let front = children.drop_last();
        let before = named.drop_last();
        lemma_rows(s, dir, front, before);
        lemma_visible_last(dir, named);
        let name = children.last().name;
        assert(named[named.len() - 1].0 == name);
        lemma_readdir_name(name);
        assert(root() =~= seq![47u8]);
        if proper_name(name) {
            child_path_is_valid(dir, name);
        }
        let seen = visible(dir, named);
        assert forall|k: int| 0 <= k < seen.len() implies {
            let row = child_rows(s.nodes, dir, children)[k];
            &&& (#[trigger] seen[k]).0 == row.name
            &&& shown_type(seen[k].1) == row.type_
            &&& row.path == joined(dir, row.name)
            &&& row.base == own_inode(s.nodes, row.path)
        } && proper_name(seen[k].0) by {
            if k < visible(dir, before).len() {
                assert(seen[k] == visible(dir, before)[k]);
                assert(child_rows(s.nodes, dir, children)[k] == child_rows(
                    s.nodes,
                    dir,
                    front,
                )[k]);
            }
        }
    }
}

/// A line shows its own number, unless one before it does.
proof fn lemma_shown(rows: Seq<RowV>, i: int)
    requires
        0 <= i < rows.len(),
    ensures
        shown_inodes(rows).len() == rows.len(),
        (forall|m: int| 0 <= m < i ==> #[trigger] shown_inodes(rows)[m] != rows[i].base)
            ==> shown_inodes(rows)[i] == rows[i].base,
    decreases rows.len(),
{
    let front = rows.drop_last();
    let before = shown_inodes(front);
    let all = shown_inodes(rows);
    if front.len() > 0 {
        lemma_shown(front, if i < front.len() {
            i
        } else {
            0
        });
    } else {
        assert(before =~= Seq::<u64>::empty());
    }
    assert(before.len() == front.len());
    if i < front.len() {
        assert(front[i] == rows[i]);
        if forall|m: int| 0 <= m < i ==> #[trigger] all[m] != rows[i].base {
            assert forall|m: int| 0 <= m < i implies #[trigger] before[m] != front[i].base by {
                assert(all[m] == before[m]);
            }
            assert(all[i] == before[i]);
        }
    } else if forall|m: int| 0 <= m < i ==> #[trigger] all[m] != rows[i].base {
        assert(!before.to_set().contains(rows[i].base)) by {
            if before.contains(rows[i].base) {
                let m = choose|m: int| 0 <= m < before.len() && before[m] == rows[i].base;
                assert(all[m] == before[m]);
            }
        }
    }
}

/// A line shows its own number or one of the upper half.
proof fn lemma_shown_or_upper(rows: Seq<RowV>, i: int)
    requires
        0 <= i < rows.len(),
    ensures
        shown_inodes(rows).len() == rows.len(),
        shown_inodes(rows)[i] == rows[i].base || shown_inodes(rows)[i] >= 0x8000_0000_0000_0000,
    decreases rows.len(),
{
    let front = rows.drop_last();
    if front.len() > 0 {
        lemma_shown_or_upper(front, if i < front.len() {
            i
        } else {
            0
        });
    } else {
        assert(shown_inodes(front) =~= Seq::<u64>::empty());
    }
    if i < front.len() {
        assert(front[i] == rows[i]);
        assert(shown_inodes(rows)[i] == shown_inodes(front)[i]);
    } else {
        let path = rows[i].path;
        let salt = first_free_salt(path, shown_inodes(front).to_set(), 1);
        lemma_upper(path, salt);
    }
}

/// Provisional numbers are numbers of the upper half.
proof fn lemma_upper(path: Seq<u8>, salt: u64)
    ensures
        provisional(path) >= 0x8000_0000_0000_0000,
        salted(path, salt) >= 0x8000_0000_0000_0000,
{
    let p = provisional(path);
    let q = salted(path, salt);
    if p < 0x8000_0000_0000_0000 {
        provisional_numbers_are_apart(path, salt, p);
    }
    if q < 0x8000_0000_0000_0000 {
        provisional_numbers_are_apart(path, salt, q);
    }
}

/// Multiplying by the hash multiplier keeps numbers apart that differ below the top bit.
proof fn lemma_multiplied(u: u64, v: u64)
    requires
        u % 0x8000_0000_0000_0000 != v % 0x8000_0000_0000_0000,
    ensures
        u.wrapping_mul(FNV_PRIME) % 0x8000_0000_0000_0000 != v.wrapping_mul(FNV_PRIME)
            % 0x8000_0000_0000_0000,
{
    let n: int = 0x8000_0000_0000_0000;
    let p: int = 0x0000_0100_0000_01b3;
    let inv: int = 14886173955864302971;
    let hu = u.wrapping_mul(FNV_PRIME) as int;
    let hv = v.wrapping_mul(FNV_PRIME) as int;
    assert(hu == (u * p) % (2 * n));
    assert(hv == (v * p) % (2 * n));
    if hu % n == hv % n {
        let s = 2 * ((u * p) / (2 * n) - (v * p) / (2 * n)) + hu / n - hv / n;
        let d = u - v;
        assert(d * p == n * s);
        assert(p * inv == 887285111055 * (2 * n) + 1);
        let t = s * inv - 2 * 887285111055 * d;
        assert(d == n * t) by (nonlinear_arith)
            requires
                d * p == n * s,
                p * inv == 887285111055 * (2 * n) + 1,
                t == s * inv - 2 * 887285111055 * d,
        ;
        let w = u as int / n - v as int / n;
        assert(u as int % n - v as int % n == n * (t - w));
        assert(-n < n * (t - w) < n);
        assert(t - w == 0);
    }
}

/// One byte makes a difference to the hash, below the top bit.
proof fn lemma_hashed(a: Seq<u8>, b: Seq<u8>, i: int)
    requires
        a.len() == b.len(),
        0 <= i < a.len(),
        a[i] != b[i],
        forall|j: int| 0 <= j < a.len() && j != i ==> #[trigger] a[j] == b[j],
    ensures
        fnv1a(a) % 0x8000_0000_0000_0000 != fnv1a(b) % 0x8000_0000_0000_0000,
    decreases a.len(),
{
    let (f, g) = (fnv1a(a.drop_last()), fnv1a(b.drop_last()));
    let (c, d) = (a.last(), b.last());
    if i == a.len() - 1 {
        assert(a.drop_last() =~= b.drop_last());
    } else {
        lemma_hashed(a.drop_last(), b.drop_last(), i);
    }
    assert((f ^ (c as u64)) % 0x8000_0000_0000_0000 != (g ^ (d as u64)) % 0x8000_0000_0000_0000)
        by (bit_vector)
        requires
            (f == g && c != d) || (c == d && f % 0x8000_0000_0000_0000 != g
                % 0x8000_0000_0000_0000),
    ;
    lemma_multiplied(f ^ (c as u64), g ^ (d as u64));
}

/// A path that is not known is shown under the same number every time, and under another one
/// than any path of its length that differs in a single byte.
pub proof fn numbers_depend_on_every_byte(a: &[u8], b: &[u8], i: int, x: u64, y: u64)
    requires
        call_ensures(provisional_inode, (a,), x),
        call_ensures(provisional_inode, (b,), y),
        0 <= i < a@.len(),
        a@.len() == b@.len(),
        forall|j: int| 0 <= j < a@.len() && j != i ==> #[trigger] a@[j] == b@[j],
    ensures
        x >= 0x8000_0000_0000_0000,
        x == y <==> a@[i] == b@[i],
{
    lemma_upper(a@, 0);
    if a@[i] == b@[i] {
        assert(a@ =~= b@);
    } else {
        lemma_hashed(a@, b@, i);
        let (f, g) = (fnv1a(a@), fnv1a(b@));
        assert(f | 0x8000_0000_0000_0000u64 != g | 0x8000_0000_0000_0000u64) by (bit_vector)
            requires
                f % 0x8000_0000_0000_0000 != g % 0x8000_0000_0000_0000,
        ;
    }
}

/// A path without a node is listed under a number of the upper half.
proof fn lemma_unknown(s: FsState, path: Seq<u8>)
    requires
        path.len() > 0,
        path[0] == 47,
        forall|j: u64| !#[trigger] node_at(s, j, path),
    ensures
        own_inode(s.nodes, path) >= 0x8000_0000_0000_0000,
{
    lemma_upper(path, 0);
    if inode_at(s.nodes, path) is Some {
        let j = choose|j: u64| #[trigger] is_at(s.nodes, j, path);
        assert(node_at(s, j, path));
    }
}

/// A child without a node is listed under a number of the upper half.
proof fn lemma_unknown_child(s: FsState, dir: Seq<u8>, name: Seq<u8>)
    requires
        shaped(dir),
        unknown_child(s, dir, name),
    ensures
        own_inode(s.nodes, joined(dir, name)) >= 0x8000_0000_0000_0000,
{
    let path = joined(dir, name);
    lemma_names_child(dir, name, path);
    assert(path[0] == 47);
    assert forall|j: u64| !#[trigger] node_at(s, j, path) by {}
    lemma_unknown(s, path);
}

/// A node is listed under its inode.
proof fn lemma_own(s: FsState, j: u64, path: Seq<u8>)
    requires
        consistent(s),
        node_at(s, j, path),
    ensures
        own_inode(s.nodes, path) == j,
{
    a_path_names_one_inode(s, j);
}

/// The lines of a snapshot: what is known of them by their position.
proof fn lemma_lines(
    s: FsState,
    ino: u64,
    dir: Seq<u8>,
    children: Seq<VDirEntryV>,
    named: Seq<(Seq<u8>, NodeKind)>,
)
    requires
        shaped(dir),
        named.len() == children.len(),
        named.len() < 0x1000_0000_0000_0000,
        forall|i: int|
            0 <= i < named.len() ==> (#[trigger] named[i]).0 == children[i].name && named[i].1
                == children[i].kind,
    ensures
        ({
            let rows = listing_rows(s.nodes, ino, dir, children);
            let seen = visible(dir, named);
            &&& rows.len() == seen.len() + 2
            &&& shown_inodes(rows).len() == rows.len()
            &&& rows[0].base == ino
            &&& rows[1].base == own_inode(s.nodes, parent_of(dir))
            &&& forall|k: int|
                0 <= k < seen.len() ==> {
                    &&& rows[k + 2].name == (#[trigger] seen[k]).0
                    &&& rows[k + 2].type_ == shown_type(seen[k].1)
                    &&& rows[k + 2].path == joined(dir, seen[k].0)
                    &&& rows[k + 2].base == own_inode(s.nodes, joined(dir, seen[k].0))
                    &&& proper_name(seen[k].0)
                }
        }),
{
    lemma_rows(s, dir, children, named);
    let rows = listing_rows(s.nodes, ino, dir, children);
    let below = child_rows(s.nodes, dir, children);
    let seen = visible(dir, named);
    assert forall|k: int| 0 <= k < seen.len() implies rows[k + 2] == #[trigger] below[k] && (
    #[trigger] seen[k]).0 == below[k].name by {}
    lemma_shown_or_upper(rows, 0);
}

/// A child with a node is shown under its inode, unless a line before shows that number.
proof fn lemma_known_line(
    s: FsState,
    rows: Seq<RowV>,
    dir: Seq<u8>,
    name: Seq<u8>,
    k: int,
    j: u64,
    path: Seq<u8>,
)
    requires
        consistent(s),
        0 <= k < rows.len(),
        rows[k].base == own_inode(s.nodes, joined(dir, name)),
        node_at(s, j, path),
        names_child(path, dir, name),
        forall|m: int| 0 <= m < k ==> #[trigger] shown_inodes(rows)[m] != j,
    ensures
        shown_inodes(rows)[k] == j,
{
    lemma_names_child(dir, name, path);
    lemma_own(s, j, path);
    lemma_shown(rows, k);
}

/// The parent of a directory is shown under its inode.
proof fn lemma_parent_line(
    s: FsState,
    rows: Seq<RowV>,
    ino: u64,
    dir: Seq<u8>,
    j: u64,
    path: Seq<u8>,
    name: Seq<u8>,
)
    requires
        consistent(s),
        rows.len() >= 2,
        rows[0].base == ino,
        rows[1].base == own_inode(s.nodes, parent_of(dir)),
        node_at(s, j, path),
        names_child(dir, path, name),
        proper_name(name),
        j != ino,
    ensures
        shown_inodes(rows)[1] == j,
{
    lemma_names_child(path, name, dir);
    lemma_readdir_name(name);
    tombstones_are_private(path, j, j);
    assert(shaped(path));
    children_stay_in_their_directory(path, name);
    lemma_own(s, j, path);
    lemma_shown(rows, 0);
    assert forall|m: int| 0 <= m < 1 implies #[trigger] shown_inodes(rows)[m] != j by {}
    lemma_shown(rows, 1);
}

/// A snapshot lists its directory.
proof fn lemma_lists(
    s: FsState,
    ino: u64,
    dir: Seq<u8>,
    children: Seq<VDirEntryV>,
    named: Seq<(Seq<u8>, NodeKind)>,
)
    requires
        consistent(s),
        node_at(s, ino, dir),
        named.len() == children.len(),
        named.len() < 0x1000_0000_0000_0000,
        forall|i: int|
            0 <= i < named.len() ==> (#[trigger] named[i]).0 == children[i].name && named[i].1
                == children[i].kind,
    ensures
        lists(s, ino, dir, named, snapshot_of(s.nodes, ino, dir, children)),
        numbered_from_one(snapshot_of(s.nodes, ino, dir, children)),
{
    tombstones_are_private(dir, ino, ino);
    assert(shaped(dir));
    lemma_lines(s, ino, dir, children, named);
    snapshots_are_well_numbered(s.nodes, ino, dir, children);
    let rows = listing_rows(s.nodes, ino, dir, children);
    let entries = snapshot_of(s.nodes, ino, dir, children);
    let seen = visible(dir, named);
    assert(dot() =~= seq![46u8]);
    assert(dotdot() =~= seq![46u8, 46u8]);
    assert(entries.len() == rows.len());
    assert(forall|m: int|
        0 <= m < rows.len() ==> (#[trigger] entries[m]).ino == shown_inodes(rows)[m]
            && entries[m].name == rows[m].name && entries[m].type_ == rows[m].type_);
    lemma_shown(rows, 0);
    assert forall|k: int, j: u64, path: Seq<u8>|
        0 <= k < seen.len() && #[trigger] node_at(s, j, path) && names_child(
            path,
            dir,
            (#[trigger] seen[k]).0,
        ) && (forall|m: int| 0 <= m < k + 2 ==> (#[trigger] entries[m]).ino != j) implies entries[k
        + 2].ino == j by {
        assert forall|m: int| 0 <= m < k + 2 implies #[trigger] shown_inodes(rows)[m] != j by {
            assert(entries[m].ino == shown_inodes(rows)[m]);
        }
        lemma_known_line(s, rows, dir, seen[k].0, k + 2, j, path);
    }
    assert forall|k: int| 0 <= k < seen.len() && unknown_child(s, dir, (#[trigger] seen[k]).0)
        implies entries[k + 2].ino >= 0x8000_0000_0000_0000 by {
        lemma_unknown_child(s, dir, seen[k].0);
        lemma_shown_or_upper(rows, k + 2);
    }
    assert forall|j: u64, path: Seq<u8>, name: Seq<u8>| #[trigger]
        node_at(s, j, path) && #[trigger] names_child(dir, path, name) && proper_name(name) && j
            != ino implies entries[1].ino == j by {
        lemma_parent_line(s, rows, ino, dir, j, path, name);
    }
}

/// Whether only the open directory `handle` may differ between two states, and that only
/// in its snapshot.
pub open spec fn only_snapshot_differs(s: FsState, handle: u64, t: FsState) -> bool {
    &&& t.nodes == s.nodes
    &&& t.files == s.files
    &&& t.next_inode == s.next_inode
    &&& t.next_handle == s.next_handle
    &&& forall|h: u64|
        h != handle ==> (#[trigger] t.dirs.contains_key(h) <==> s.dirs.contains_key(h)) && (
        s.dirs.contains_key(h) ==> t.dirs[h] == s.dirs[h])
    &&& t.dirs.contains_key(handle)
    &&& t.dirs[handle].inode == s.dirs[handle].inode
    &&& t.dirs[handle].orphan == s.dirs[handle].orphan
}

/// Reading an open directory from the start lists what the provider lists, and hands out
/// the first page of it.
pub proof fn directories_are_listed_from_the_start<P: PathFs>(
    before: VirtualFs<P>,
    ino: u64,
    handle: u64,
    dir: Seq<u8>,
    size: u32,
    reply: Result<Seq<(Seq<u8>, NodeKind)>, FsError>,
    after: VirtualFs<P>,
    r: Result<Vec<DirEntry>, FsError>,
)
    requires
        consistent(before@),
        node_at(before@, ino, dir),
        before@.dirs.contains_key(handle),
        before@.dirs[handle].snapshot is None,
        readdir_is(before.backend(), dir, reply),
        reply matches Ok(children) ==> children.len() < 0x1000_0000_0000_0000,
        exists|fs: &mut VirtualFs<P>|
            *fs == before && *final(fs) == after && #[trigger] call_ensures(
                VirtualFs::<P>::do_readdir,
                (fs, ino, handle, size, 0u64),
                r,
            ),
    ensures
        after.same_setup(&before),
        match reply {
            Ok(children) => {
                &&& only_snapshot_differs(before@, handle, after@)
                &&& after@.dirs[handle].snapshot is Some
                &&& lists(before@, ino, dir, children, after@.dirs[handle].snapshot->0)
                &&& r is Ok && page_fits(
                    32,
                    after@.dirs[handle].snapshot->0,
                    0,
                    size,
                    listing_view(r->Ok_0@),
                )
            },
            Err(e) => r == Err::<Vec<DirEntry>, FsError>(e) && after@ == before@,
        },
{
    tombstones_are_private(dir, ino, ino);
    assert forall|v: Seq<VDirEntry>, i: int|
        0 <= i < v.len() implies (#[trigger] entry_views(v)[i]).name == v[i].name@
        && entry_views(v)[i].kind == v[i].kind by {}
    if let Ok(children) = reply {
        let l = choose|l: Result<Vec<VDirEntry>, FsError>|
            #[trigger] replied_readdir(before.backend(), dir, l)
                && listed(
                before@,
                ino,
                handle,
                dir,
                l,
                size,
                32,
                after@,
                r,
            );
        let views = entry_views(l->Ok_0@);
        assert(children.len() == views.len());
        lemma_lists(before@, ino, dir, views, children);
        lemma_page(32, snapshot_of(before@.nodes, ino, dir, views), 0, size, Seq::empty());
    }
}

/// Reading on in an open directory hands out the page behind the cookie, of the listing
/// as it was taken, and changes nothing. The page takes no more room than the buffer
/// has, also by the 24 bytes that the guest counts for a header.
pub proof fn directories_are_read_on<P: PathFs>(
    before: VirtualFs<P>,
    ino: u64,
    handle: u64,
    size: u32,
    offset: u64,
    after: VirtualFs<P>,
    r: Result<Vec<DirEntry>, FsError>,
)
    requires
        consistent(before@),
        before@.dirs.contains_key(handle),
        before@.dirs[handle].snapshot is Some,
        exists|fs: &mut VirtualFs<P>|
            *fs == before && *final(fs) == after && #[trigger] call_ensures(
                VirtualFs::<P>::do_readdir,
                (fs, ino, handle, size, offset),
                r,
            ),
    ensures
        after.same_setup(&before),
        after@ == before@,
        r is Ok,
        offset <= before@.dirs[handle].snapshot->0.len() ==> page_fits(
            32,
            before@.dirs[handle].snapshot->0,
            offset,
            size,
            listing_view(r->Ok_0@),
        ),
        offset >= before@.dirs[handle].snapshot->0.len() ==> r->Ok_0@.len() == 0,
        r->Ok_0@.len() > 1 ==> bare_room(24, listing_view(r->Ok_0@)) + 8 * r->Ok_0@.len() <= size,
{
    let snapshot = before@.dirs[handle].snapshot->0;
    assert(snapshot_proper(snapshot));
    if offset <= snapshot.len() {
        lemma_page(32, snapshot, offset, size, Seq::empty());
    }
    if offset >= snapshot.len() {
        lemma_no_page(32, snapshot, offset, size);
    }
    lemma_bare_room(32, listing_view(r->Ok_0@));
    assert(listing_view(r->Ok_0@).len() == r->Ok_0@.len());
}

/// A handle that is not open is `EBADF`, and one that has no listing yet cannot be read
/// in the middle: `EAGAIN`.
pub proof fn unlisted_directories_are_refused<P: PathFs>(
    before: VirtualFs<P>,
    ino: u64,
    handle: u64,
    size: u32,
    offset: u64,
    after: VirtualFs<P>,
    r: Result<Vec<DirEntry>, FsError>,
)
    requires
        !before@.dirs.contains_key(handle) || (before@.dirs[handle].snapshot is None && offset
            > 0),
        exists|fs: &mut VirtualFs<P>|
            *fs == before && *final(fs) == after && #[trigger] call_ensures(
                VirtualFs::<P>::do_readdir,
                (fs, ino, handle, size, offset),
                r,
            ),
    ensures
        after@ == before@,
        r == Err::<Vec<DirEntry>, FsError>(
            FsError::Os(
                if before@.dirs.contains_key(handle) {
                    11
                } else {
                    9
                },
            ),
        ),
{
}

/// Opening a directory hands out a fresh handle without a listing. Anything else than a
/// directory is refused.
pub proof fn opening_a_directory_hands_out_a_handle<P: PathFs>(
    before: VirtualFs<P>,
    ino: u64,
    path: Seq<u8>,
    reply: Result<VAttr, FsError>,
    after: VirtualFs<P>,
    r: Result<(Option<u64>, u32), FsError>,
)
    requires
        node_at(before@, ino, path),
        getattr_is(before.backend(), path, reply),
        exists|fs: &mut VirtualFs<P>|
            *fs == before && *final(fs) == after && #[trigger] call_ensures(
                VirtualFs::<P>::do_opendir,
                (fs, ino),
                r,
            ),
    ensures
        after.same_setup(&before),
        after@.nodes == before@.nodes,
        after@.files == before@.files,
        after@.next_inode == before@.next_inode,
        match reply {
            Err(e) => r == Err::<(Option<u64>, u32), FsError>(e) && after@ == before@,
            Ok(attr) => if attr.kind != NodeKind::Dir {
                r == Err::<(Option<u64>, u32), FsError>(FsError::Os(20)) && after@ == before@
            } else {
                let handle = before@.next_handle;
                &&& r is Ok
                &&& r->Ok_0.0 == Some(handle)
                &&& caches_as(before.config(), 8, r->Ok_0.1)
                &&& handle < u64::MAX ==> after@.next_handle == handle + 1
                &&& after@.dirs.contains_key(handle)
                &&& after@.dirs[handle].inode == ino
                &&& after@.dirs[handle].orphan is None
                &&& after@.dirs[handle].snapshot is None
                &&& forall|h: u64|
                    h != handle ==> (#[trigger] after@.dirs.contains_key(h)
                        <==> before@.dirs.contains_key(h)) && (before@.dirs.contains_key(h)
                        ==> after@.dirs[h] == before@.dirs[h])
            },
        },
{
    tombstones_are_private(path, ino, ino);
}

/// Every answer to a refresh of the directory `path` is `reply`.
pub open spec fn fsyncdir_is<P: PathFs>(p: P, path: Seq<u8>, reply: Result<(), FsError>) -> bool {
    forall|q: &[u8], a: Result<(), FsError>|
        q@ == path && #[trigger] call_ensures(P::fsyncdir, (&p, q), a) ==> a == reply
}

/// Syncing an open directory refreshes it: its listing is taken afresh after that. A
/// handle that is not open on that directory is `EBADF`.
pub proof fn syncing_a_directory_refreshes_it<P: PathFs>(
    before: VirtualFs<P>,
    ino: u64,
    handle: u64,
    path: Seq<u8>,
    reply: Result<(), FsError>,
    after: VirtualFs<P>,
    r: Result<(), FsError>,
)
    requires
        node_at(before@, ino, path),
        fsyncdir_is(before.backend(), path, reply),
        exists|fs: &mut VirtualFs<P>|
            *fs == before && *final(fs) == after && #[trigger] call_ensures(
                VirtualFs::<P>::do_fsyncdir,
                (fs, ino, handle),
                r,
            ),
    ensures
        after.same_setup(&before),
        if before@.dirs.contains_key(handle) && before@.dirs[handle].inode == ino {
            &&& r == reply
            &&& reply is Err ==> after@ == before@
            &&& reply is Ok ==> only_snapshot_differs(before@, handle, after@)
                && after@.dirs[handle].snapshot is None
        } else {
            r == Err::<(), FsError>(FsError::Os(9)) && after@ == before@
        },
{
    tombstones_are_private(path, ino, ino);
}

/// Closing a directory drops its handle and no other.
pub proof fn closing_a_directory_drops_the_handle<P: PathFs>(
    before: VirtualFs<P>,
    handle: u64,
    after: VirtualFs<P>,
    r: Result<(), FsError>,
)
    requires
        exists|fs: &mut VirtualFs<P>|
            *fs == before && *final(fs) == after && #[trigger] call_ensures(
                VirtualFs::<P>::do_releasedir,
                (fs, handle),
                r,
            ),
    ensures
        r == Ok::<(), FsError>(()),
        after.same_setup(&before),
        after@.nodes == before@.nodes,
        after@.files == before@.files,
        after@.next_inode == before@.next_inode,
        after@.next_handle == before@.next_handle,
        !after@.dirs.contains_key(handle),
        forall|h: u64|
            h != handle ==> (#[trigger] after@.dirs.contains_key(h)
                <==> before@.dirs.contains_key(h)) && (before@.dirs.contains_key(h)
                ==> after@.dirs[h] == before@.dirs[h]),
{
}

/// The entries of a page other than `.` and `..`.
pub open spec fn without_dots(page: Seq<DirEntryV>) -> Seq<DirEntryV>
    decreases page.len(),
{
    if page.len() == 0 {
        Seq::empty()
    } else if page[0].name == seq![46u8] || page[0].name == seq![46u8, 46u8] {
        without_dots(page.skip(1))
    } else {
        seq![page[0]] + without_dots(page.skip(1))
    }
}

/// What is left of a page is what is left of its front and its last entry.
proof fn lemma_without_dots_last(page: Seq<DirEntryV>)
    requires
        page.len() > 0,
    ensures
        without_dots(page) == (if page.last().name == seq![46u8] || page.last().name == seq![
            46u8,
            46u8,
        ] {
            without_dots(page.drop_last())
        } else {
            without_dots(page.drop_last()).push(page.last())
        }),
    decreases page.len(),
{
    let front = page.drop_last();
    if page.len() > 1 {
        lemma_without_dots_last(page.skip(1));
        assert(page.skip(1).drop_last() =~= front.skip(1));
        assert(page.skip(1).last() == page.last());
    } else {
        assert(page.skip(1) =~= Seq::<DirEntryV>::empty());
        assert(front =~= Seq::<DirEntryV>::empty());
    }
    assert(without_dots(page) =~= (if page.last().name == seq![46u8] || page.last().name == seq![
        46u8,
        46u8,
    ] {
        without_dots(front)
    } else {
        without_dots(front).push(page.last())
    }));
}

/// The real entries of a page are those other than `.` and `..`. Where every name but
/// those two is valid, their names are proper.
proof fn lemma_without_dots(page: Seq<DirEntryV>)
    ensures
        real_entries(page) == without_dots(page),
        names_proper(page) ==> forall|i: int|
            0 <= i < without_dots(page).len() ==> proper_name((#[trigger] without_dots(page)[i]).name),
    decreases page.len(),
{
    assert(dot() =~= seq![46u8]);
    assert(dotdot() =~= seq![46u8, 46u8]);
    if page.len() > 0 {
        let front = page.drop_last();
        lemma_without_dots_last(page);
        lemma_without_dots(front);
        if names_proper(page) {
            assert forall|i: int| 0 <= i < front.len() implies {
                ||| (#[trigger] front[i]).name == dot()
                ||| front[i].name == dotdot()
                ||| readdir_name_check(front[i].name) is Ok
            } by {
                assert(front[i] == page[i]);
            }
            assert(page[page.len() - 1] == page.last());
            lemma_readdir_name(page.last().name);
            let left = without_dots(page);
            assert forall|i: int| 0 <= i < left.len() implies proper_name(
                (#[trigger] left[i]).name,
            ) by {
                if i < without_dots(front).len() {
                    assert(left[i] == without_dots(front)[i]);
                }
            }
        }
    }
}

/// Whether `paths` are the paths of these children of the directory `dir`.
pub open spec fn are_children(
    paths: Seq<Seq<u8>>,
    dir: Seq<u8>,
    children: Seq<DirEntryV>,
) -> bool {
    &&& paths.len() == children.len()
    &&& forall|i: int|
        0 <= i < paths.len() ==> names_child(#[trigger] paths[i], dir, children[i].name)
}

/// Every answer to a request for the attributes of all these paths is `reply`.
pub open spec fn getattr_many_is<P: PathFs>(
    p: P,
    paths: Seq<Seq<u8>>,
    reply: Result<Seq<Result<VAttr, FsError>>, FsError>,
) -> bool {
    forall|q: &[&[u8]], a: Result<Vec<Result<VAttr, FsError>>, FsError>|
        q@.len() == paths.len() && (forall|i: int|
            0 <= i < paths.len() ==> (#[trigger] q@[i])@ == paths[i]) && #[trigger] call_ensures(
            P::getattr_many,
            (&p, q),
            a,
        ) ==> (match a {
            Ok(v) => Ok::<Seq<Result<VAttr, FsError>>, FsError>(v@),
            Err(e) => Err(e),
        }) == reply
}

/// Whether `out` are the rows of the first `n` children of a page: one for each child
/// that has attributes, in order, with its name, its cookie and its type, under the inode
/// that the guest now knows its path by.
pub open spec fn rows_tell(
    cfg: VirtualFsConfig,
    t: FsState,
    paths: Seq<Seq<u8>>,
    children: Seq<DirEntryV>,
    attrs: Seq<Result<VAttr, FsError>>,
    n: int,
    out: Seq<(DirEntry, Entry)>,
) -> bool
    decreases n,
{
    if n <= 0 {
        out.len() == 0
    } else {
        match attrs[n - 1] {
            Err(_) => rows_tell(cfg, t, paths, children, attrs, n - 1, out),
            Ok(attr) => {
                let row = out.last();
                &&& out.len() > 0
                &&& rows_tell(cfg, t, paths, children, attrs, n - 1, out.drop_last())
                &&& row.0.name@ == children[n - 1].name
                &&& row.0.offset == children[n - 1].offset
                &&& row.0.type_ == children[n - 1].type_
                &&& row.0.ino == row.1.inode
                &&& entry_tells(cfg, row.1.inode, attr, row.1)
                &&& node_at(t, row.1.inode, paths[n - 1])
            },
        }
    }
}

/// References that are taken later leave a node where it is.
proof fn lemma_stays(
    s: FsState,
    paths: Seq<Seq<u8>>,
    attrs: Seq<Result<VAttr, FsError>>,
    n: int,
    m: int,
    ino: u64,
    path: Seq<u8>,
)
    requires
        consistent(s),
        numbered(s),
        0 <= n <= m <= paths.len(),
        m <= attrs.len(),
        s.next_inode + m < u64::MAX,
        forall|i: int| 0 <= i < m ==> shaped(#[trigger] paths[i]),
        node_at(plus_state(s, paths, attrs, n), ino, path),
    ensures
        node_at(plus_state(s, paths, attrs, m), ino, path),
    decreases m,
{
    if n < m {
        lemma_stays(s, paths, attrs, n, m - 1, ino, path);
        lemma_plus_consistent(s, paths, attrs, m - 1);
        let before = plus_state(s, paths, attrs, m - 1);
        if attrs[m - 1] is Ok {
            assert(shaped(paths[m - 1]));
            lemma_gained(before, paths[m - 1]);
        }
    }
}

/// Taking references keeps the tables consistent and touches no handle.
proof fn lemma_plus_consistent(
    s: FsState,
    paths: Seq<Seq<u8>>,
    attrs: Seq<Result<VAttr, FsError>>,
    n: int,
)
    requires
        consistent(s),
        numbered(s),
        0 <= n <= paths.len(),
        n <= attrs.len(),
        s.next_inode + n < u64::MAX,
        forall|i: int| 0 <= i < n ==> shaped(#[trigger] paths[i]),
    ensures
        consistent(plus_state(s, paths, attrs, n)),
        numbered(plus_state(s, paths, attrs, n)),
        plus_state(s, paths, attrs, n).next_inode <= s.next_inode + n,
        plus_state(s, paths, attrs, n).files == s.files,
        plus_state(s, paths, attrs, n).dirs == s.dirs,
        plus_state(s, paths, attrs, n).next_handle == s.next_handle,
    decreases n,
{
    if n > 0 {
        lemma_plus_consistent(s, paths, attrs, n - 1);
        let before = plus_state(s, paths, attrs, n - 1);
        if attrs[n - 1] is Ok {
            assert(shaped(paths[n - 1]));
            referencing_keeps_consistency(before, paths[n - 1]);
            lemma_gained(before, paths[n - 1]);
        }
    }
}

/// The rows that are built tell the children.
proof fn lemma_rows_tell<P: PathFs>(
    fs: VirtualFs<P>,
    s: FsState,
    paths: Seq<Seq<u8>>,
    children: Seq<DirEntryV>,
    attrs: Seq<Result<VAttr, FsError>>,
    n: int,
    m: int,
    out: Seq<(DirEntry, Entry)>,
)
    requires
        consistent(s),
        numbered(s),
        0 <= n <= m <= paths.len(),
        m <= attrs.len(),
        s.next_inode + m < u64::MAX,
        forall|i: int| 0 <= i < m ==> shaped(#[trigger] paths[i]),
        is_plus(fs.config(), s, children, paths, attrs, n, out),
    ensures
        rows_tell(
            fs.config(),
            plus_state(s, paths, attrs, m),
            paths,
            children,
            attrs,
            n,
            out,
        ),
    decreases n,
{
    if n > 0 {
        match attrs[n - 1] {
            Err(_) => {
                lemma_rows_tell(fs, s, paths, children, attrs, n - 1, m, out);
            },
            Ok(attr) => {
                lemma_rows_tell(fs, s, paths, children, attrs, n - 1, m, out.drop_last());
                let before = plus_state(s, paths, attrs, n - 1);
                lemma_plus_consistent(s, paths, attrs, n - 1);
                assert(shaped(paths[n - 1]));
                lemma_gained(before, paths[n - 1]);
                let ino = referenced_inode(before, paths[n - 1]);
                lemma_stays(s, paths, attrs, n, m, ino, paths[n - 1]);
                lemma_entry(fs, ino, attr, out.last().1);
                assert(out.last().0@ == (DirEntryV { ino, ..children[n - 1] }));
            },
        }
    }
}

/// Reading on with attributes asks for the attributes of the entries of one page, other
/// than `.` and `..`, and tells those that have any, each under an inode that the guest
/// now knows. The page has room for the larger header. No handle is touched.
pub proof fn directories_are_read_on_with_attributes<P: PathFs>(
    before: VirtualFs<P>,
    ino: u64,
    dir: Seq<u8>,
    handle: u64,
    size: u32,
    offset: u64,
    page: Seq<DirEntryV>,
    paths: Seq<Seq<u8>>,
    reply: Result<Seq<Result<VAttr, FsError>>, FsError>,
    after: VirtualFs<P>,
    r: Result<Vec<(DirEntry, Entry)>, FsError>,
)
    requires
        consistent(before@),
        numbered(before@),
        before@.next_inode + paths.len() < u64::MAX,
        node_at(before@, ino, dir),
        before@.dirs.contains_key(handle),
        before@.dirs[handle].snapshot is Some,
        offset <= before@.dirs[handle].snapshot->0.len(),
        page_fits(160, before@.dirs[handle].snapshot->0, offset, size, page),
        are_children(paths, dir, without_dots(page)),
        getattr_many_is(before.backend(), paths, reply),
        exists|fs: &mut VirtualFs<P>|
            *fs == before && *final(fs) == after && #[trigger] call_ensures(
                VirtualFs::<P>::do_readdirplus,
                (fs, ino, handle, size, offset),
                r,
            ),
    ensures
        after.same_setup(&before),
        match reply {
            Err(e) => r == Err::<Vec<(DirEntry, Entry)>, FsError>(e) && after@ == before@,
            Ok(attrs) => if attrs.len() != paths.len() {
                r == Err::<Vec<(DirEntry, Entry)>, FsError>(FsError::Os(5)) && after@ == before@
            } else {
                &&& r is Ok
                &&& rows_tell(
                    before.config(),
                    after@,
                    paths,
                    without_dots(page),
                    attrs,
                    paths.len() as int,
                    r->Ok_0@,
                )
                &&& handles_same(before@, after@)
            },
        },
{
    let snapshot = before@.dirs[handle].snapshot->0;
    tombstones_are_private(dir, ino, ino);
    assert(shaped(dir));
    assert(snapshot_proper(snapshot));
    lemma_page(160, snapshot, offset, size, page);
    assert(names_proper(page)) by {
        assert forall|i: int| 0 <= i < page.len() implies {
            ||| (#[trigger] page[i]).name == dot()
            ||| page[i].name == dotdot()
            ||| readdir_name_check(page[i].name) is Ok
        } by {
            assert(page[i] == snapshot[offset + i]);
        }
    }
    lemma_without_dots(page);
    let children = without_dots(page);
    assert forall|i: int| 0 <= i < paths.len() implies #[trigger] paths[i] == joined(
        dir,
        children[i].name,
    ) && shaped(paths[i]) by {
        lemma_names_child(dir, children[i].name, paths[i]);
        lemma_readdir_name(children[i].name);
        lemma_shaped_child(dir, children[i].name);
    }
    assert(entry_paths(dir, children) =~= paths);
    if let Ok(attrs) = reply {
        if attrs.len() == paths.len() {
            lemma_plus_consistent(before@, paths, attrs, paths.len() as int);
            if let Ok(out) = r {
                lemma_rows_tell(
                    before,
                    before@,
                    paths,
                    children,
                    attrs,
                    paths.len() as int,
                    paths.len() as int,
                    out@,
                );
            }
        }
    }
}

/// Reading a directory with attributes from the start lists it as reading it without them
/// does.
pub proof fn directories_are_listed_from_the_start_with_attributes<P: PathFs>(
    before: VirtualFs<P>,
    ino: u64,
    handle: u64,
    dir: Seq<u8>,
    size: u32,
    reply: Result<Seq<(Seq<u8>, NodeKind)>, FsError>,
    after: VirtualFs<P>,
    r: Result<Vec<(DirEntry, Entry)>, FsError>,
)
    requires
        consistent(before@),
        numbered(before@),
        node_at(before@, ino, dir),
        before@.dirs.contains_key(handle),
        before@.dirs[handle].snapshot is None,
        readdir_is(before.backend(), dir, reply),
        reply matches Ok(children) ==> children.len() < 0x1000_0000_0000_0000
            && before@.next_inode + children.len() + 2 < u64::MAX,
        exists|fs: &mut VirtualFs<P>|
            *fs == before && *final(fs) == after && #[trigger] call_ensures(
                VirtualFs::<P>::do_readdirplus,
                (fs, ino, handle, size, 0u64),
                r,
            ),
    ensures
        match reply {
            Ok(children) => after@.dirs.contains_key(handle)
                && after@.dirs[handle].snapshot is Some && lists(
                before@,
                ino,
                dir,
                children,
                after@.dirs[handle].snapshot->0,
            ),
            Err(e) => r == Err::<Vec<(DirEntry, Entry)>, FsError>(e) && after@ == before@,
        },
{
    tombstones_are_private(dir, ino, ino);
    assert(shaped(dir));
    let (mid, page) = choose|mid: FsState, page: Result<Vec<DirEntry>, FsError>| #[trigger]
        dir_served(before.backend(), before@, ino, handle, size, 0, 160, mid, page) && (
        match page {
            Err(e) => r == Err::<Vec<(DirEntry, Entry)>, FsError>(e) && after@ == mid,
            Ok(entries) => exists|a: Result<Vec<Result<VAttr, FsError>>, FsError>| #[trigger]
                replied_getattr_many(
                    before.backend(),
                    entry_paths(dir, real_entries(listing_view(entries@))),
                    a,
                ) && plus_result(
                    before.config(),
                    mid,
                    dir,
                    listing_view(entries@),
                    a,
                    after@,
                    r,
                ),
        });
    let l = choose|l: Result<Vec<VDirEntry>, FsError>| #[trigger]
        replied_readdir(before.backend(), dir, l) && listed(
            before@,
            ino,
            handle,
            dir,
            l,
            size,
            160,
            mid,
            page,
        );
    if let Ok(children) = reply {
        let views = entry_views(l->Ok_0@);
        assert(children.len() == views.len());
        lemma_lists(before@, ino, dir, views, children);
        let snapshot = snapshot_of(before@.nodes, ino, dir, views);
        lemma_page(160, snapshot, 0, size, Seq::empty());
        let shown = listing_view(page->Ok_0@);
        lemma_visible_len(dir, children);
        built_snapshots_are_proper(before@.nodes, ino, dir, views);
        handles_keep_consistency(before@, ino, Seq::empty(), handle, Some(snapshot));
        assert(names_proper(shown)) by {
            assert forall|i: int| 0 <= i < shown.len() implies {
                ||| (#[trigger] shown[i]).name == dot()
                ||| shown[i].name == dotdot()
                ||| readdir_name_check(shown[i].name) is Ok
            } by {
                assert(shown[i] == snapshot[i]);
            }
        }
        lemma_without_dots(shown);
        lemma_without_dots_len(shown);
        let left = without_dots(shown);
        let paths = entry_paths(dir, left);
        assert forall|i: int| 0 <= i < paths.len() implies shaped(#[trigger] paths[i]) by {
            lemma_readdir_name(left[i].name);
            lemma_shaped_child(dir, left[i].name);
        }
        let a = choose|a: Result<Vec<Result<VAttr, FsError>>, FsError>| #[trigger]
            replied_getattr_many(before.backend(), paths, a) && plus_result(
                before.config(),
                mid,
                dir,
                shown,
                a,
                after@,
                r,
            );
        if let Ok(attrs) = a {
            if attrs@.len() == left.len() {
                lemma_plus_consistent(mid, paths, attrs@, left.len() as int);
            }
        }
    }
}

/// No more children are visible than there are.
proof fn lemma_visible_len(dir: Seq<u8>, children: Seq<(Seq<u8>, NodeKind)>)
    ensures
        visible(dir, children).len() <= children.len(),
    decreases children.len(),
{
    if children.len() > 0 {
        lemma_visible_len(dir, children.skip(1));
    }
}

/// No more entries are left than there are.
proof fn lemma_without_dots_len(page: Seq<DirEntryV>)
    ensures
        without_dots(page).len() <= page.len(),
    decreases page.len(),
{
    if page.len() > 0 {
        lemma_without_dots_len(page.skip(1));
    }
}

} // verus!
