//! Directory snapshots: the inode numbers a listing shows, and the entries it is
//! made of.

use crate::abi::{DirEntry, DirEntryV};
use crate::bytes::{copy_bytes, dot, dotdot, DOT};
use crate::name_validation::{
    path_check, readdir_name_check, validate_provider_path_bytes, validate_readdir_name,
};
use crate::path_fs::{entry_views, VDirEntry, VDirEntryV};
use crate::paths::{join, joined, parent_of, parent_path};
use crate::platform::DIRENT_DIR;
use crate::tables::{inode_at, listing_view, NodeV, Tables};
use std::collections::HashSet;
use vstd::prelude::*;
use vstd::relations::injective_on;
use vstd::set_lib::{
    lemma_int_range, lemma_len_subset, lemma_map_size, lemma_set_disjoint_lens, set_int_range,
};

verus! {

broadcast use vstd::std_specs::hash::group_hash_axioms;

/// The starting value of a 64-bit FNV-1a hash.
pub const FNV_BASIS: u64 = 0xcbf2_9ce4_8422_2325;

/// The multiplier of a 64-bit FNV-1a hash.
pub const FNV_PRIME: u64 = 0x0000_0100_0000_01b3;

/// The bit that marks an inode number as provisional.
pub const PROVISIONAL_BIT: u64 = 0x8000_0000_0000_0000;

/// The 64-bit FNV-1a hash of a byte string.
pub open spec fn fnv1a(s: Seq<u8>) -> u64
    decreases s.len(),
{
    if s.len() == 0 {
        FNV_BASIS
    } else {
        (fnv1a(s.drop_last()) ^ (s.last() as u64)).wrapping_mul(FNV_PRIME)
    }
}

/// The inode number shown for a path that is not interned.
pub open spec fn provisional(path: Seq<u8>) -> u64 {
    fnv1a(path) | PROVISIONAL_BIT
}

/// A stable provisional inode for a directory entry that is not yet interned.
///
/// Derived deterministically from the path, so that repeated listings of an
/// unchanged entry report the same number. The top bit is set so that a
/// provisional number can never collide with the sequential interned inodes.
pub fn provisional_inode(path: &[u8]) -> (r: u64)
    ensures
        r == provisional(path@),
{
    let mut hash: u64 = FNV_BASIS;
    let mut i: usize = 0;
    assert(path@.take(0) =~= Seq::<u8>::empty());
    while i < path.len()
        invariant
            i <= path.len(),
            hash == fnv1a(path@.take(i as int)),
        decreases path.len() - i,
    {
        assert(path@.take(i + 1).drop_last() =~= path@.take(i as int));
        hash = hash ^ (path[i] as u64);
        hash = hash.wrapping_mul(FNV_PRIME);
        i += 1;
    }
    assert(path@.take(path@.len() as int) =~= path@);
    hash | PROVISIONAL_BIT
}

/// An alternative number for a path, one for each salt.
pub open spec fn salted(path: Seq<u8>, salt: u64) -> u64 {
    (provisional(path) ^ salt).wrapping_mul(FNV_PRIME) | PROVISIONAL_BIT
}

/// Like [`provisional_inode`] with extra mixing, for two paths that collide in
/// one directory listing.
pub fn provisional_inode_salted(path: &[u8], salt: u64) -> (r: u64)
    ensures
        r == salted(path@, salt),
{
    let hash: u64 = (provisional_inode(path) ^ salt).wrapping_mul(FNV_PRIME);
    hash | PROVISIONAL_BIT
}

/// Provisional numbers, salted or not, lie above every number that has not the
/// top bit: they never collide with the sequential interned inodes.
pub proof fn provisional_numbers_are_apart(path: Seq<u8>, salt: u64, interned: u64)
    requires
        interned < PROVISIONAL_BIT,
    ensures
        provisional(path) != interned,
        salted(path, salt) != interned,
{
    let h = fnv1a(path);
    let g = (provisional(path) ^ salt).wrapping_mul(FNV_PRIME);
    assert(h | 0x8000_0000_0000_0000u64 >= 0x8000_0000_0000_0000u64) by (bit_vector);
    assert(g | 0x8000_0000_0000_0000u64 >= 0x8000_0000_0000_0000u64) by (bit_vector);
}

/// The first salt from `salt` on whose number is free, or the last salt.
pub open spec fn first_free_salt(path: Seq<u8>, seen: Set<u64>, salt: u64) -> u64
    decreases u64::MAX - salt,
{
    if salt == u64::MAX || !seen.contains(salted(path, salt)) {
        salt
    } else {
        first_free_salt(path, seen, (salt + 1) as u64)
    }
}

/// The number a listing shows for an entry whose own number is `base`, when the
/// numbers `seen` are taken.
pub open spec fn shown_inode(base: u64, path: Seq<u8>, seen: Set<u64>) -> u64 {
    if seen.contains(base) {
        salted(path, first_free_salt(path, seen, 1))
    } else {
        base
    }
}

/// Assign a unique `d_ino` for one `readdir` entry within a single listing.
pub fn unique_dirent_inode(base: u64, path: &[u8], seen: &mut HashSet<u64>) -> (r: u64)
    ensures
        r == shown_inode(base, path@, old(seen)@),
        final(seen)@ == old(seen)@.insert(r),
{
    if seen.insert(base) {
        return base;
    }
    assert(seen@ =~= old(seen)@);
    let mut salt: u64 = 1;
    loop
        invariant
            seen@ == old(seen)@,
            seen@.contains(base),
            first_free_salt(path@, seen@, 1) == first_free_salt(path@, seen@, salt),
        decreases u64::MAX - salt,
    {
        let ino = provisional_inode_salted(path, salt);
        if seen.insert(ino) {
            return ino;
        }
        assert(seen@ =~= old(seen)@);
        if salt == u64::MAX {
            assert(seen@ =~= old(seen)@.insert(ino));
            return ino;
        }
        salt += 1;
    }
}

/// Multiplying by the FNV multiplier loses nothing.
proof fn lemma_prime_is_invertible(x: u64, y: u64)
    requires
        x.wrapping_mul(FNV_PRIME) == y.wrapping_mul(FNV_PRIME),
    ensures
        x == y,
{
    let m: int = 0x1_0000_0000_0000_0000;
    let p: int = 0x0000_0100_0000_01b3;
    let inv: int = 14886173955864302971;
    let a = x.wrapping_mul(FNV_PRIME) as int;
    assert(a == (x * p) % m);
    assert(a == (y * p) % m);
    let qx = (x * p) / m;
    let qy = (y * p) / m;
    assert(x * p == qx * m + a);
    assert(y * p == qy * m + a);
    assert(p * inv == 887285111055 * m + 1);
    assert(x - y == m * ((qx - qy) * inv - 887285111055 * (x - y))) by (nonlinear_arith)
        requires
            x * p == qx * m + a,
            y * p == qy * m + a,
            p * inv == 887285111055 * m + 1,
    ;
    let t = (qx - qy) * inv - 887285111055 * (x - y);
    assert(-m < m * t < m);
    assert(t == 0);
}

/// Two salts that show the same number, and whose hashes agree in the top bit,
/// are the same.
proof fn lemma_salts_differ(path: Seq<u8>, a: u64, b: u64)
    requires
        salted(path, a) == salted(path, b),
        ((provisional(path) ^ a).wrapping_mul(FNV_PRIME) & PROVISIONAL_BIT == 0) == ((provisional(
            path,
        ) ^ b).wrapping_mul(FNV_PRIME) & PROVISIONAL_BIT == 0),
    ensures
        a == b,
{
    let p = provisional(path);
    let x = (p ^ a).wrapping_mul(FNV_PRIME);
    let y = (p ^ b).wrapping_mul(FNV_PRIME);
    assert(x == y) by (bit_vector)
        requires
            x | 0x8000_0000_0000_0000u64 == y | 0x8000_0000_0000_0000u64,
            (x & 0x8000_0000_0000_0000u64 == 0) == (y & 0x8000_0000_0000_0000u64 == 0),
    ;
    lemma_prime_is_invertible(p ^ a, p ^ b);
    assert(a == b) by (bit_vector)
        requires
            p ^ a == p ^ b,
    ;
}

/// While fewer than half of all numbers are taken, some salt shows a free one.
pub proof fn a_free_salt_exists(path: Seq<u8>, seen: Set<u64>)
    requires
        seen.finite(),
        2 * seen.len() + 1 < u64::MAX,
    ensures
        exists|salt: u64| 1 <= salt < u64::MAX && !seen.contains(#[trigger] salted(path, salt)),
{
    let n: int = 2 * (seen.len() as int) + 1;
    if forall|salt: u64| 1 <= salt < u64::MAX ==> seen.contains(#[trigger] salted(path, salt)) {
        let all = set_int_range(1, n + 1);
        lemma_int_range(1, n + 1);
        let top = |s: int|
            (provisional(path) ^ (s as u64)).wrapping_mul(FNV_PRIME) & PROVISIONAL_BIT == 0;
        let shown = |s: int| salted(path, s as u64);
        let low = all.filter(top);
        let high = all.filter(|s: int| !top(s));
        all.lemma_len_filter(top);
        all.lemma_len_filter(|s: int| !top(s));
        assert(low + high =~= all);
        assert(low.disjoint(high));
        lemma_set_disjoint_lens(low, high);
        assert(injective_on(shown, low)) by {
            assert forall|a: int, b: int|
                low.contains(a) && low.contains(b) && #[trigger] shown(a) == #[trigger] shown(
                    b,
                ) implies a == b by {
                lemma_salts_differ(path, a as u64, b as u64);
            }
        }
        assert(injective_on(shown, high)) by {
            assert forall|a: int, b: int|
                high.contains(a) && high.contains(b) && #[trigger] shown(a) == #[trigger] shown(
                    b,
                ) implies a == b by {
                lemma_salts_differ(path, a as u64, b as u64);
            }
        }
        lemma_map_size(low, low.map(shown), shown);
        lemma_map_size(high, high.map(shown), shown);
        assert forall|x: u64| low.map(shown).contains(x) implies seen.contains(x) by {
            let s = choose|s: int| low.contains(s) && shown(s) == x;
            assert(seen.contains(salted(path, s as u64)));
        }
        assert forall|x: u64| high.map(shown).contains(x) implies seen.contains(x) by {
            let s = choose|s: int| high.contains(s) && shown(s) == x;
            assert(seen.contains(salted(path, s as u64)));
        }
        lemma_len_subset(low.map(shown), seen);
        lemma_len_subset(high.map(shown), seen);
        assert(false);
    }
}

/// The first free salt is free where a free one exists.
proof fn lemma_first_free_salt(path: Seq<u8>, seen: Set<u64>, salt: u64, free: u64)
    requires
        salt <= free < u64::MAX,
        !seen.contains(salted(path, free)),
    ensures
        !seen.contains(salted(path, first_free_salt(path, seen, salt))),
    decreases u64::MAX - salt,
{
    if seen.contains(salted(path, salt)) {
        lemma_first_free_salt(path, seen, (salt + 1) as u64, free);
    }
}

/// The number shown for an entry is not taken, while fewer than half of all
/// numbers are.
pub proof fn shown_inodes_are_unique(base: u64, path: Seq<u8>, seen: Set<u64>)
    requires
        seen.finite(),
        2 * seen.len() + 1 < u64::MAX,
    ensures
        !seen.contains(shown_inode(base, path, seen)),
{
    a_free_salt_exists(path, seen);
    let free = choose|salt: u64|
        1 <= salt < u64::MAX && !seen.contains(#[trigger] salted(path, salt));
    lemma_first_free_salt(path, seen, 1, free);
}

/// The number an entry at `path` has before duplicates are resolved: its inode
/// where it is interned, and a provisional one otherwise.
pub open spec fn own_inode(nodes: Map<u64, NodeV>, path: Seq<u8>) -> u64 {
    match inode_at(nodes, path) {
        Some(ino) => ino,
        None => provisional(path),
    }
}

/// The inode number to advertise for a `readdir` entry at `path`.
///
/// Reuses the interned inode when known, so that the number stays stable across
/// a later lookup; otherwise a provisional one, without interning a node: plain
/// `readdir` takes no lookup reference.
pub fn dirent_inode(tables: &Tables, path: &[u8]) -> (r: u64)
    ensures
        r == own_inode(tables@.nodes, path@),
{
    match tables.find(path) {
        Some(ino) => ino,
        None => provisional_inode(path),
    }
}

/// One line of a listing before its number and cookie are assigned.
pub struct RowV {
    pub name: Seq<u8>,
    pub path: Seq<u8>,
    pub base: u64,
    pub type_: u32,
}

/// Whether the child `name` of the directory `dir` can be shown: a name that
/// could not be looked up afterwards is left out.
pub open spec fn listable(dir: Seq<u8>, name: Seq<u8>) -> bool {
    readdir_name_check(name) is Ok && path_check(joined(dir, name)) is Ok
}

/// The lines for the children of a directory, in the provider's order.
pub open spec fn child_rows(
    nodes: Map<u64, NodeV>,
    dir: Seq<u8>,
    children: Seq<VDirEntryV>,
) -> Seq<RowV>
    decreases children.len(),
{
    if children.len() == 0 {
        Seq::empty()
    } else {
        let before = child_rows(nodes, dir, children.drop_last());
        let child = children.last();
        if listable(dir, child.name) {
            before.push(
                RowV {
                    name: child.name,
                    path: joined(dir, child.name),
                    base: own_inode(nodes, joined(dir, child.name)),
                    type_: child.kind.dirent_type(),
                },
            )
        } else {
            before
        }
    }
}

/// The lines of a listing: the directory itself, its parent, and its children.
pub open spec fn listing_rows(
    nodes: Map<u64, NodeV>,
    ino: u64,
    dir: Seq<u8>,
    children: Seq<VDirEntryV>,
) -> Seq<RowV> {
    seq![
        RowV { name: dot(), path: dir, base: ino, type_: DIRENT_DIR },
        RowV {
            name: dotdot(),
            path: parent_of(dir),
            base: own_inode(nodes, parent_of(dir)),
            type_: DIRENT_DIR,
        },
    ] + child_rows(nodes, dir, children)
}

/// The inode numbers shown for a list of lines, each differing from those
/// before it.
pub open spec fn shown_inodes(rows: Seq<RowV>) -> Seq<u64>
    decreases rows.len(),
{
    if rows.len() == 0 {
        Seq::empty()
    } else {
        let before = shown_inodes(rows.drop_last());
        before.push(shown_inode(rows.last().base, rows.last().path, before.to_set()))
    }
}

/// The entries of a list of lines: the cookies count from one.
pub open spec fn entries_of(rows: Seq<RowV>) -> Seq<DirEntryV> {
    Seq::new(
        rows.len(),
        |i: int|
            DirEntryV {
                ino: shown_inodes(rows)[i],
                offset: (i + 1) as u64,
                type_: rows[i].type_,
                name: rows[i].name,
            },
    )
}

/// A point-in-time listing of the directory `ino` at `dir`.
pub open spec fn snapshot_of(
    nodes: Map<u64, NodeV>,
    ino: u64,
    dir: Seq<u8>,
    children: Seq<VDirEntryV>,
) -> Seq<DirEntryV> {
    entries_of(listing_rows(nodes, ino, dir, children))
}

/// There is one number for each line.
proof fn lemma_shown_inodes_len(rows: Seq<RowV>)
    ensures
        shown_inodes(rows).len() == rows.len(),
    decreases rows.len(),
{
    if rows.len() > 0 {
        lemma_shown_inodes_len(rows.drop_last());
    }
}

/// A further line adds one entry and changes none.
proof fn lemma_entries_push(rows: Seq<RowV>, row: RowV)
    ensures
        entries_of(rows.push(row)) == entries_of(rows).push(
            DirEntryV {
                ino: shown_inode(row.base, row.path, shown_inodes(rows).to_set()),
                offset: (rows.len() + 1) as u64,
                type_: row.type_,
                name: row.name,
            },
        ),
        shown_inodes(rows.push(row)) == shown_inodes(rows).push(
            shown_inode(row.base, row.path, shown_inodes(rows).to_set()),
        ),
{
    lemma_shown_inodes_len(rows);
    assert(rows.push(row).drop_last() =~= rows);
    assert(entries_of(rows.push(row)) =~= entries_of(rows).push(
        DirEntryV {
            ino: shown_inode(row.base, row.path, shown_inodes(rows).to_set()),
            offset: (rows.len() + 1) as u64,
            type_: row.type_,
            name: row.name,
        },
    ));
}

/// Add one line to a listing under construction.
fn push_row(
    entries: &mut Vec<DirEntry>,
    seen: &mut HashSet<u64>,
    name: Vec<u8>,
    path: &[u8],
    base: u64,
    type_: u32,
    rows: Ghost<Seq<RowV>>,
)
    requires
        listing_view(old(entries)@) == entries_of(rows@),
        old(seen)@ == shown_inodes(rows@).to_set(),
    ensures
        listing_view(final(entries)@) == entries_of(
            rows@.push(RowV { name: name@, path: path@, base, type_ }),
        ),
        final(seen)@ == shown_inodes(
            rows@.push(RowV { name: name@, path: path@, base, type_ }),
        ).to_set(),
{
    let ghost row = RowV { name: name@, path: path@, base, type_ };
    let ino = unique_dirent_inode(base, path, seen);
    proof {
        lemma_entries_push(rows@, row);
        let shown = shown_inodes(rows@);
        assert(shown.push(ino).to_set() =~= shown.to_set().insert(ino)) by {
            let more = shown.push(ino);
            assert forall|x: u64| #[trigger]
                more.to_set().contains(x) <==> shown.to_set().insert(ino).contains(x) by {
                if more.contains(x) && x != ino {
                    let j = choose|j: int| 0 <= j < more.len() && more[j] == x;
                    assert(shown[j] == x);
                }
                if shown.contains(x) {
                    let j = choose|j: int| 0 <= j < shown.len() && shown[j] == x;
                    assert(more[j] == x);
                }
                assert(more[shown.len() as int] == ino);
            }
        }
        assert(listing_view(entries@).len() == entries@.len());
    }
    let ghost before = listing_view(entries@);
    let offset = (entries.len() as u64).wrapping_add(1);
    entries.push(DirEntry { ino, offset, type_, name });
    assert(entries.len() == before.len() + 1);
    assert(listing_view(entries@) =~= before.push(entries@.last()@));
}

/// Build a point-in-time directory snapshot of the directory `ino` at `dir_path`
/// from the children the provider lists.
pub fn build_snapshot(
    tables: &Tables,
    ino: u64,
    dir_path: &[u8],
    children: &Vec<VDirEntry>,
) -> (r: Vec<DirEntry>)
    ensures
        listing_view(r@) == snapshot_of(tables@.nodes, ino, dir_path@, entry_views(children@)),
{
    let ghost nodes = tables@.nodes;
    let ghost listed = entry_views(children@);
    let parent = parent_path(dir_path);
    let parent_ino = dirent_inode(tables, parent.as_slice());
    let mut entries: Vec<DirEntry> = Vec::new();
    let mut seen: HashSet<u64> = HashSet::new();
    let mut dot_name: Vec<u8> = Vec::new();
    dot_name.push(DOT);
    let mut dotdot_name: Vec<u8> = Vec::new();
    dotdot_name.push(DOT);
    dotdot_name.push(DOT);
    let ghost none = Seq::<RowV>::empty();
    let ghost this = RowV { name: dot(), path: dir_path@, base: ino, type_: DIRENT_DIR };
    let ghost above = RowV {
        name: dotdot(),
        path: parent_of(dir_path@),
        base: own_inode(nodes, parent_of(dir_path@)),
        type_: DIRENT_DIR,
    };
    proof {
        assert(dot_name@ =~= dot());
        assert(dotdot_name@ =~= dotdot());
        assert(listing_view(entries@) =~= entries_of(none));
        assert(shown_inodes(none).to_set() =~= Set::<u64>::empty());
    }
    push_row(&mut entries, &mut seen, dot_name, dir_path, ino, DIRENT_DIR, Ghost(none));
    push_row(
        &mut entries,
        &mut seen,
        dotdot_name,
        parent.as_slice(),
        parent_ino,
        DIRENT_DIR,
        Ghost(none.push(this)),
    );
    let mut i: usize = 0;
    assert(listed.take(0) =~= Seq::<VDirEntryV>::empty());
    assert(none.push(this).push(above) =~= listing_rows(nodes, ino, dir_path@, listed.take(0)));
    while i < children.len()
        invariant
            i <= children.len(),
            nodes == tables@.nodes,
            listed == entry_views(children@),
            listing_view(entries@) == entries_of(
                listing_rows(nodes, ino, dir_path@, listed.take(i as int)),
            ),
            seen@ == shown_inodes(
                listing_rows(nodes, ino, dir_path@, listed.take(i as int)),
            ).to_set(),
        decreases children.len() - i,
    {
        let child = &children[i];
        let ghost rows = listing_rows(nodes, ino, dir_path@, listed.take(i as int));
        proof {
            assert(listed.take(i + 1).drop_last() =~= listed.take(i as int));
            assert(listed.take(i + 1).last() == child@);
        }
        if validate_readdir_name(child.name.as_slice()).is_ok() {
            let child_path = join(dir_path, child.name.as_slice());
            if validate_provider_path_bytes(child_path.as_slice()).is_ok() {
                let base = dirent_inode(tables, child_path.as_slice());
                let name = copy_bytes(child.name.as_slice());
                let type_ = child.kind.dirent_type();
                let ghost row = RowV { name: name@, path: child_path@, base, type_ };
                push_row(
                    &mut entries,
                    &mut seen,
                    name,
                    child_path.as_slice(),
                    base,
                    type_,
                    Ghost(rows),
                );
                assert(rows.push(row) =~= listing_rows(
                    nodes,
                    ino,
                    dir_path@,
                    listed.take(i + 1),
                ));
            }
        }
        i += 1;
    }
    assert(listed.take(listed.len() as int) =~= listed);
    entries
}

/// The numbers of a listing are all different, as long as it has fewer lines
/// than half of all numbers.
proof fn lemma_shown_inodes_distinct(rows: Seq<RowV>)
    requires
        2 * rows.len() + 1 < u64::MAX,
    ensures
        shown_inodes(rows).no_duplicates(),
        shown_inodes(rows).len() == rows.len(),
    decreases rows.len(),
{
    if rows.len() > 0 {
        let before = shown_inodes(rows.drop_last());
        lemma_shown_inodes_distinct(rows.drop_last());
        before.unique_seq_to_set();
        let row = rows.last();
        shown_inodes_are_unique(row.base, row.path, before.to_set());
        let ino = shown_inode(row.base, row.path, before.to_set());
        assert forall|i: int, j: int|
            0 <= i < j < before.len() + 1 implies #[trigger] before.push(ino)[i]
            != #[trigger] before.push(ino)[j] by {
            if j == before.len() {
                assert(before.contains(before[i]));
            }
        }
    }
}

/// Every listing starts with the directory itself and its parent, numbers its
/// cookies from one, and shows no inode number twice.
pub proof fn snapshots_are_well_numbered(
    nodes: Map<u64, NodeV>,
    ino: u64,
    dir: Seq<u8>,
    children: Seq<VDirEntryV>,
)
    requires
        2 * (children.len() + 2) + 1 < u64::MAX,
    ensures
        numbered_from_one(snapshot_of(nodes, ino, dir, children)),
        forall|i: int, j: int|
            0 <= i < j < snapshot_of(nodes, ino, dir, children).len() ==> (
            #[trigger] snapshot_of(nodes, ino, dir, children)[i]).ino != (
            #[trigger] snapshot_of(nodes, ino, dir, children)[j]).ino,
        snapshot_of(nodes, ino, dir, children).len() >= 2,
        snapshot_of(nodes, ino, dir, children)[0].name == dot(),
        snapshot_of(nodes, ino, dir, children)[0].ino == ino,
        snapshot_of(nodes, ino, dir, children)[1].name == dotdot(),
{
    let rows = listing_rows(nodes, ino, dir, children);
    lemma_child_rows_len(nodes, dir, children);
    lemma_shown_inodes_distinct(rows);
    lemma_first_shown(rows);
}

/// The first line shows its own number.
proof fn lemma_first_shown(rows: Seq<RowV>)
    requires
        rows.len() > 0,
    ensures
        shown_inodes(rows)[0] == rows[0].base,
    decreases rows.len(),
{
    if rows.len() > 1 {
        lemma_first_shown(rows.drop_last());
        lemma_shown_inodes_len(rows.drop_last());
    } else {
        assert(rows.drop_last() =~= Seq::<RowV>::empty());
        assert(shown_inodes(rows.drop_last()) =~= Seq::<u64>::empty());
        assert(!Seq::<u64>::empty().to_set().contains(rows[0].base));
    }
}

/// There are at most as many lines for children as there are children.
proof fn lemma_child_rows_len(nodes: Map<u64, NodeV>, dir: Seq<u8>, children: Seq<VDirEntryV>)
    ensures
        child_rows(nodes, dir, children).len() <= children.len(),
    decreases children.len(),
{
    if children.len() > 0 {
        lemma_child_rows_len(nodes, dir, children.drop_last());
    }
}

/// A listing shows exactly those children that can be looked up.
pub proof fn listings_show_what_lookup_accepts(
    nodes: Map<u64, NodeV>,
    dir: Seq<u8>,
    children: Seq<VDirEntryV>,
    name: Seq<u8>,
)
    ensures
        (exists|k: int|
            0 <= k < child_rows(nodes, dir, children).len() && (
            #[trigger] child_rows(nodes, dir, children)[k]).name == name) <==> listable(dir, name)
            && exists|i: int| 0 <= i < children.len() && (#[trigger] children[i]).name == name,
    decreases children.len(),
{
    let rows = child_rows(nodes, dir, children);
    if children.len() > 0 {
        let front = children.drop_last();
        let before = child_rows(nodes, dir, front);
        listings_show_what_lookup_accepts(nodes, dir, front, name);
        if exists|k: int| 0 <= k < rows.len() && (#[trigger] rows[k]).name == name {
            let k = choose|k: int| 0 <= k < rows.len() && (#[trigger] rows[k]).name == name;
            if k < before.len() {
                assert(before[k] == rows[k]);
                let i = choose|i: int| 0 <= i < front.len() && (#[trigger] front[i]).name == name;
                assert(children[i] == front[i]);
            } else {
                assert(children[children.len() - 1].name == name);
            }
        }
        if listable(dir, name) && exists|i: int|
            0 <= i < children.len() && (#[trigger] children[i]).name == name {
            let i = choose|i: int|
                0 <= i < children.len() && (#[trigger] children[i]).name == name;
            if i < front.len() {
                assert(front[i] == children[i]);
                let k = choose|k: int|
                    0 <= k < before.len() && (#[trigger] before[k]).name == name;
                assert(rows[k] == before[k]);
            } else {
                assert(rows[rows.len() - 1].name == name);
            }
        }
    }
}

/// Whether the cookies of a listing count from one.
pub open spec fn numbered_from_one(entries: Seq<DirEntryV>) -> bool {
    entries.len() <= u64::MAX && forall|i: int|
        0 <= i < entries.len() ==> (#[trigger] entries[i]).offset == i + 1
}

} // verus!
