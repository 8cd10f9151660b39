//! Inodes and the references that the guest holds to them.

use super::{bytes_in, node_at, open_at};
use crate::error::FsError;
use crate::invariants::{
    a_path_names_one_inode, consistent, numbered, referencing_keeps_consistency,
};
use crate::path_fs::PathFs;
use crate::paths::{shaped, tombstones_are_private};
use crate::tables::{
    evicted, forgotten, inode_at, is_at, lemma_inode_at_some, referenced, referenced_inode, FsState,
};
use crate::vfs::{all_forgotten, VirtualFs};
use vstd::prelude::*;

verus! {

/// Whether every node but `ino` is the same in both states.
pub open spec fn others_same(s: FsState, t: FsState, ino: u64) -> bool {
    forall|i: u64|
        i != ino ==> (#[trigger] t.nodes.contains_key(i) <==> s.nodes.contains_key(i)) && (
        s.nodes.contains_key(i) ==> t.nodes[i] == s.nodes[i])
}

/// Whether both states have the same open handles.
pub open spec fn handles_same(s: FsState, t: FsState) -> bool {
    &&& t.files == s.files
    &&& t.dirs == s.dirs
    &&& t.next_handle == s.next_handle
}

/// Whether `t` is the state after the guest was told of the inode `ino` at `path`
/// once more: the node counts one reference more. It is the node that has the
/// path already, or else a new one under the next number.
pub open spec fn gained(s: FsState, path: Seq<u8>, ino: u64, t: FsState) -> bool {
    &&& node_at(t, ino, path)
    &&& others_same(s, t, ino)
    &&& forall|i: u64| #[trigger]
        node_at(s, i, path) ==> ino == i && t.next_inode == s.next_inode && (s.nodes[i].refs
            < u64::MAX ==> t.nodes[i].refs == s.nodes[i].refs + 1)
    &&& (forall|i: u64| !#[trigger] node_at(s, i, path)) ==> ino == s.next_inode
        && t.nodes[ino].refs == 1 && t.next_inode == s.next_inode + 1
}

/// Referencing a path is being told of its inode once more.
pub proof fn lemma_gained(s: FsState, path: Seq<u8>)
    requires
        consistent(s),
        numbered(s),
        s.next_inode < u64::MAX,
        shaped(path),
    ensures
        gained(s, path, referenced_inode(s, path), referenced(s, path)),
        referenced(s, path).files == s.files,
        referenced(s, path).dirs == s.dirs,
        referenced(s, path).next_handle == s.next_handle,
        s.nodes.contains_key(referenced_inode(s, path)) <==> exists|i: u64| #[trigger]
            node_at(s, i, path),
{
    let t = referenced(s, path);
    referencing_keeps_consistency(s, path);
    assert forall|i: u64| #[trigger] node_at(s, i, path) implies inode_at(s.nodes, path)
        == Some(i) by {
        a_path_names_one_inode(s, i);
    }
    match inode_at(s.nodes, path) {
        Some(i) => {
            let some = choose|i: u64| #[trigger] is_at(s.nodes, i, path);
            lemma_inode_at_some(s.nodes, some, path);
            assert(node_at(s, i, path));
        },
        None => {
            assert forall|i: u64| !#[trigger] node_at(s, i, path) by {
                if node_at(s, i, path) {
                    assert(is_at(s.nodes, i, path));
                }
            }
            assert(evicted(s, s.next_inode) == s);
        },
    }
}

/// Forgetting takes away as many references as it is asked to: the node keeps the
/// rest, and is gone once none is left. The root stays, and no other node is
/// touched. A file that is open on it can be read and written as before.
pub proof fn forgetting_counts_references<P: PathFs>(
    before: VirtualFs<P>,
    ino: u64,
    count: u64,
    after: VirtualFs<P>,
    handle: u64,
    path: Seq<u8>,
    r: Result<Vec<u8>, FsError>,
)
    requires
        exists|fs: &mut VirtualFs<P>|
            *fs == before && *final(fs) == after && #[trigger] call_ensures(
                VirtualFs::<P>::forget,
                (fs, ino, count),
                (),
            ),
        call_ensures(VirtualFs::<P>::file_handle_path, (&after, handle), r),
    ensures
        others_same(before@, after@, ino),
        ino == 1 ==> after@ == before@,
        !before@.nodes.contains_key(ino) ==> after@ == before@,
        ino != 1 && before@.nodes.contains_key(ino) && count >= before@.nodes[ino].refs
            ==> !after@.nodes.contains_key(ino),
        ino != 1 && before@.nodes.contains_key(ino) && count < before@.nodes[ino].refs ==> {
            &&& after@.nodes.contains_key(ino)
            &&& after@.nodes[ino].path == before@.nodes[ino].path
            &&& after@.nodes[ino].refs + count == before@.nodes[ino].refs
        },
        after@.next_inode == before@.next_inode,
        after@.next_handle == before@.next_handle,
        after@.files.dom() == before@.files.dom(),
        after@.dirs.dom() == before@.dirs.dom(),
        open_at(before@, handle, path) ==> bytes_in(r) == Ok::<Seq<u8>, FsError>(path),
{
    if open_at(before@, handle, path) {
        tombstones_are_private(path, ino, ino);
    }
    assert(after@.files.dom() =~= before@.files.dom());
    assert(after@.dirs.dom() =~= before@.dirs.dom());
}

/// Forgetting twice is forgetting the sum.
pub proof fn forgets_add_up(s: FsState, ino: u64, a: u64, b: u64)
    requires
        a + b <= u64::MAX,
    ensures
        forgotten(forgotten(s, ino, a), ino, b) == forgotten(s, ino, (a + b) as u64),
{
    if ino != 1 && s.nodes.contains_key(ino) && s.nodes[ino].refs > a {
        let t = forgotten(s, ino, a);
        assert(t.files == s.files && t.dirs == s.dirs);
        assert(t.nodes.remove(ino) =~= s.nodes.remove(ino));
        let u = forgotten(t, ino, b);
        let v = forgotten(s, ino, (a + b) as u64);
        if s.nodes[ino].refs <= a + b {
            assert(u.files =~= v.files);
            assert(u.dirs =~= v.dirs);
            assert(u.nodes =~= v.nodes);
        } else {
            assert(u.nodes =~= v.nodes);
        }
        assert(u =~= v);
    }
}

/// Forgetting several inodes is forgetting each of them in turn.
pub proof fn batches_forget_one_after_the_other<P: PathFs>(
    before: VirtualFs<P>,
    requests: &Vec<(u64, u64)>,
    after: VirtualFs<P>,
    ino: u64,
)
    requires
        exists|fs: &mut VirtualFs<P>|
            *fs == before && *final(fs) == after && #[trigger] call_ensures(
                VirtualFs::<P>::batch_forget,
                (fs, requests),
                (),
            ),
    ensures
        requests@.len() == 0 ==> after@ == before@,
        requests@.len() == 1 ==> after@ == forgotten(
            before@,
            requests@[0].0,
            requests@[0].1,
        ),
        ino != 1 && before@.nodes.contains_key(ino) && asked_of(requests@, ino)
            < before@.nodes[ino].refs ==> {
            &&& after@.nodes.contains_key(ino)
            &&& after@.nodes[ino].path == before@.nodes[ino].path
            &&& after@.nodes[ino].refs + asked_of(requests@, ino) == before@.nodes[ino].refs
        },
        ino != 1 && before@.nodes.contains_key(ino) && asked_of(requests@, ino)
            >= before@.nodes[ino].refs && before@.nodes[ino].refs > 0 ==> !after@.nodes.contains_key(
            ino,
        ),
{
    lemma_batch(before@, requests@, ino);
    if requests@.len() == 1 {
        assert(all_forgotten(before@, requests@.drop_last()) == before@);
    }
}

/// How many references of `ino` a list of requests asks to forget.
pub open spec fn asked_of(requests: Seq<(u64, u64)>, ino: u64) -> int
    decreases requests.len(),
{
    if requests.len() == 0 {
        0
    } else {
        asked_of(requests.skip(1), ino) + (if requests[0].0 == ino {
            requests[0].1 as int
        } else {
            0
        })
    }
}

/// What is asked of a list is what is asked of its front and its last request.
proof fn lemma_asked_of_last(requests: Seq<(u64, u64)>, ino: u64)
    requires
        requests.len() > 0,
    ensures
        asked_of(requests, ino) == asked_of(requests.drop_last(), ino) + (if requests.last().0
            == ino {
            requests.last().1 as int
        } else {
            0
        }),
        asked_of(requests.drop_last(), ino) >= 0,
    decreases requests.len(),
{
    let front = requests.drop_last();
    if requests.len() > 1 {
        lemma_asked_of_last(requests.skip(1), ino);
        assert(requests.skip(1).drop_last() =~= front.skip(1));
        assert(requests.skip(1).last() == requests.last());
    } else {
        assert(requests.skip(1) =~= Seq::<(u64, u64)>::empty());
        assert(front =~= Seq::<(u64, u64)>::empty());
    }
}

/// The count of a node after several requests.
proof fn lemma_batch(s: FsState, requests: Seq<(u64, u64)>, ino: u64)
    ensures
        ino != 1 && s.nodes.contains_key(ino) && asked_of(requests, ino) < s.nodes[ino].refs ==> {
            let t = all_forgotten(s, requests);
            &&& t.nodes.contains_key(ino)
            &&& t.nodes[ino].path == s.nodes[ino].path
            &&& t.nodes[ino].refs + asked_of(requests, ino) == s.nodes[ino].refs
        },
        ino != 1 && s.nodes.contains_key(ino) && asked_of(requests, ino) >= s.nodes[ino].refs
            && s.nodes[ino].refs > 0 ==> !all_forgotten(s, requests).nodes.contains_key(ino),
    decreases requests.len(),
{
    if requests.len() > 0 {
        lemma_asked_of_last(requests, ino);
        lemma_batch(s, requests.drop_last(), ino);
    }
}

} // verus!
