//! Absolute guest paths: joining, containment, parents, and the private keys of
//! nodes that have lost their name.

use crate::bytes::{
    bytes_eq, copy_bytes, has_tail, head, head_len, is_root, lemma_head_len, lemma_head_len_is,
    root, tail, SLASH,
};
use crate::error::FsError;
use crate::name_validation::{
    components_check, has_dotdot, path_check, readdir_name_check, PATH_MAX,
};
use crate::platform::LINUX_ENAMETOOLONG;
use crate::wire::{be64, be64_round_trips, push_be64};
use vstd::prelude::*;

verus! {

/// The path of the child `name` of the directory `parent`.
pub open spec fn joined(parent: Seq<u8>, name: Seq<u8>) -> Seq<u8> {
    if parent == root() {
        root() + name
    } else {
        parent + root() + name
    }
}

/// Join a directory path and a single, already validated child name into an
/// absolute path.
pub fn join(parent: &[u8], name: &[u8]) -> (r: Vec<u8>)
    ensures
        r@ == joined(parent@, name@),
{
    let mut p: Vec<u8> = Vec::new();
    if !is_root(parent) {
        p.extend_from_slice(parent);
    }
    p.push(SLASH);
    p.extend_from_slice(name);
    assert(p@ =~= joined(parent@, name@));
    p
}

/// Whether `path` is `base` itself or a descendant of `base`.
pub open spec fn at_or_under(path: Seq<u8>, base: Seq<u8>) -> bool {
    &&& base.len() <= path.len()
    &&& path.take(base.len() as int) == base
    &&& path.len() == base.len() || base == root() || path[base.len() as int] == SLASH
}

/// Whether `path` is `base` itself or a descendant of `base`.
pub fn is_at_or_under(path: &[u8], base: &[u8]) -> (r: bool)
    ensures
        r == at_or_under(path@, base@),
{
    if path.len() < base.len() {
        return false;
    }
    let prefix = vstd::slice::slice_subrange(path, 0, base.len());
    assert(prefix@ =~= path@.take(base@.len() as int));
    bytes_eq(prefix, base) && (path.len() == base.len() || is_root(base) || path[base.len()]
        == SLASH)
}

/// The position of the last separator, or -1 where there is none.
pub open spec fn last_slash(path: Seq<u8>) -> int
    decreases path.len(),
{
    if path.len() == 0 {
        -1
    } else if path.last() == SLASH {
        path.len() - 1
    } else {
        last_slash(path.drop_last())
    }
}

/// The last separator is a separator, and none follows it.
pub proof fn lemma_last_slash(path: Seq<u8>)
    ensures
        -1 <= last_slash(path) < path.len(),
        last_slash(path) >= 0 ==> path[last_slash(path)] == SLASH,
        forall|i: int| last_slash(path) < i < path.len() ==> path[i] != SLASH,
    decreases path.len(),
{
    if path.len() > 0 && path.last() != SLASH {
        lemma_last_slash(path.drop_last());
        assert forall|i: int| last_slash(path) < i < path.len() implies path[i] != SLASH by {
            if i < path.len() - 1 {
                assert(path.drop_last()[i] == path[i]);
            }
        }
    }
}

/// The parent directory of an absolute path. The parent of `/` is `/`.
pub open spec fn parent_of(path: Seq<u8>) -> Seq<u8> {
    if last_slash(path) <= 0 {
        root()
    } else {
        path.take(last_slash(path))
    }
}

/// The parent directory of an absolute path. The parent of `/` is `/`.
pub fn parent_path(path: &[u8]) -> (r: Vec<u8>)
    ensures
        r@ == parent_of(path@),
{
    let mut idx: usize = path.len();
    while idx > 0 && path[idx - 1] != SLASH
        invariant
            idx <= path.len(),
            forall|i: int| idx <= i < path.len() ==> path@[i] != SLASH,
        decreases idx,
    {
        idx -= 1;
    }
    proof {
        lemma_last_slash(path@);
    }
    assert(last_slash(path@) == idx - 1);
    if idx <= 1 {
        let mut r: Vec<u8> = Vec::new();
        r.push(SLASH);
        assert(r@ =~= root());
        r
    } else {
        let r = copy_bytes(vstd::slice::slice_subrange(path, 0, idx - 1));
        assert(r@ =~= path@.take(idx - 1));
        r
    }
}

/// The private table key of a node whose name is gone.
pub open spec fn tombstone(inode: u64) -> Seq<u8> {
    seq![0u8] + be64(inode)
}

/// A private inode-table key for a node whose name is gone but which the kernel
/// still references. Guest paths begin with `/`, so a leading NUL can never
/// collide with one.
pub fn tombstone_key(inode: u64) -> (r: Vec<u8>)
    ensures
        r@ == tombstone(inode),
{
    let mut key: Vec<u8> = Vec::new();
    key.push(0);
    push_be64(&mut key, inode);
    assert(key@ =~= tombstone(inode));
    key
}

/// Whether a table key is a tombstone.
pub open spec fn tombstoned(path: Seq<u8>) -> bool {
    path.len() > 0 && path[0] == 0
}

/// Whether `path` is a tombstone key produced by [`tombstone_key`].
pub fn is_tombstone(path: &[u8]) -> (r: bool)
    ensures
        r == tombstoned(path@),
{
    path.len() > 0 && path[0] == 0
}

/// Whether a table key is an absolute path.
pub open spec fn absolute(path: Seq<u8>) -> bool {
    path.len() > 0 && path[0] == SLASH
}

/// No guest path is a tombstone, and distinct nodes have distinct tombstones.
pub proof fn tombstones_are_private(path: Seq<u8>, a: u64, b: u64)
    ensures
        tombstoned(tombstone(a)),
        absolute(path) ==> !tombstoned(path) && path != tombstone(a),
        tombstone(a) == tombstone(b) ==> a == b,
{
    be64_round_trips(a, Seq::empty());
    be64_round_trips(b, Seq::empty());
    assert(be64(a) + Seq::empty() =~= tombstone(a).skip(1));
    assert(be64(b) + Seq::empty() =~= tombstone(b).skip(1));
}

/// The parent of a child is the directory it was joined to: joining cannot
/// leave the directory.
pub proof fn parent_of_joined(parent: Seq<u8>, name: Seq<u8>)
    requires
        absolute(parent),
        parent == root() || parent.last() != SLASH,
        !name.contains(SLASH),
    ensures
        parent_of(joined(parent, name)) == parent,
        parent != root() ==> at_or_under(joined(parent, name), parent),
        absolute(joined(parent, name)),
{
    let child = joined(parent, name);
    lemma_last_slash(child);
    let sep = if parent == root() {
        0
    } else {
        parent.len() as int
    };
    assert(child[sep] == SLASH);
    assert forall|i: int| sep < i < child.len() implies child[i] != SLASH by {
        assert(child[i] == name[i - sep - 1]);
        assert(name.contains(name[i - sep - 1]));
    }
    assert(last_slash(child) == sep);
    if parent != root() {
        assert(child.take(sep) =~= parent);
    }
}

/// Checking a list of components that is extended by one more list checks the
/// first and then the second.
proof fn lemma_components_append(s: Seq<u8>, t: Seq<u8>)
    ensures
        components_check(s + root() + t) == (match components_check(s) {
            Err(e) => Err(e),
            Ok(_) => components_check(t),
        }),
    decreases s.len(),
{
    let all = s + root() + t;
    lemma_head_len(s);
    let n = head_len(s) as int;
    lemma_head_len_is(all, n);
    assert(head(all) =~= head(s));
    if has_tail(s) {
        assert(tail(all) =~= tail(s) + root() + t);
        lemma_components_append(tail(s), t);
    } else {
        assert(tail(all) =~= t);
    }
}

/// Whether `path` has the shape of a guest path: absolute, without NUL, and made
/// of components none of which is empty, `.`, `..` or too long. Only its length
/// as a whole is not looked at.
pub open spec fn shaped(path: Seq<u8>) -> bool {
    &&& absolute(path)
    &&& !path.contains(0)
    &&& path.len() == 1 || components_check(path.skip(1)) is Ok
}

/// A shaped path that is not the root is more than a separator, and does not end
/// in one.
proof fn lemma_shaped_end(path: Seq<u8>)
    requires
        shaped(path),
    ensures
        path == root() || (path.len() > 1 && path.last() != SLASH),
{
    if path.len() == 1 {
        assert(path =~= root());
    } else if path.last() == SLASH {
        let front = path.skip(1).drop_last();
        assert(path.skip(1) =~= front + root() + Seq::empty());
        lemma_components_append(front, Seq::empty());
        lemma_head_len(Seq::<u8>::empty());
        assert(head(Seq::<u8>::empty()) =~= Seq::empty());
        assert(components_check(Seq::empty()) is Err);
        if path.len() == 2 {
            assert(front =~= Seq::empty());
        }
    }
}

/// A component of a shaped path is never `..`: nothing in it leads upwards.
pub proof fn shaped_paths_never_lead_upwards(components: Seq<u8>)
    requires
        components_check(components) is Ok,
    ensures
        !has_dotdot(components),
    decreases components.len(),
{
    if has_tail(components) {
        shaped_paths_never_lead_upwards(tail(components));
    }
}

/// A child of a shaped path under a valid name is shaped.
pub proof fn lemma_shaped_child(parent: Seq<u8>, name: Seq<u8>)
    requires
        shaped(parent),
        readdir_name_check(name) is Ok,
    ensures
        shaped(joined(parent, name)),
        joined(parent, name).len() > 1,
{
    let child = joined(parent, name);
    lemma_head_len(name);
    assert(head(name) =~= name);
    assert(components_check(name) is Ok);
    if child.contains(0) {
        let i = choose|i: int| 0 <= i < child.len() && child[i] == 0;
        let off = child.len() - name.len();
        if i >= off {
            assert(name[i - off] == 0);
        } else if parent != root() && i < parent.len() {
            assert(parent[i] == 0);
        }
    }
    if parent == root() {
        assert(child.skip(1) =~= name);
    } else {
        assert(parent.len() > 1) by {
            if parent.len() == 1 {
                assert(parent =~= root());
            }
        }
        lemma_components_append(parent.skip(1), name);
        assert(child.skip(1) =~= parent.skip(1) + root() + name);
    }
}

/// A shaped path below `from` is shaped after `from` has become `to`.
pub proof fn lemma_shaped_moved(path: Seq<u8>, from: Seq<u8>, to: Seq<u8>)
    requires
        shaped(path),
        shaped(from),
        shaped(to),
        from.len() > 1,
        to.len() > 1,
        at_or_under(path, from),
    ensures
        shaped(to + path.skip(from.len() as int)),
{
    let rest = path.skip(from.len() as int);
    let moved = to + rest;
    if moved.contains(0) {
        let i = choose|i: int| 0 <= i < moved.len() && moved[i] == 0;
        if i < to.len() {
            assert(to[i] == 0);
        } else {
            assert(path[i - to.len() + from.len()] == 0);
        }
    }
    if path.len() == from.len() {
        assert(moved =~= to);
    } else {
        let inner = path.skip(from.len() as int + 1);
        assert(path[from.len() as int] == SLASH);
        assert(path.skip(1) =~= from.skip(1) + root() + inner) by {
            assert(path.take(from.len() as int) == from);
            assert forall|i: int| 0 <= i < from.len() implies path[i] == from[i] by {
                assert(path.take(from.len() as int)[i] == path[i]);
            }
        }
        lemma_components_append(from.skip(1), inner);
        lemma_components_append(to.skip(1), inner);
        assert(moved.skip(1) =~= to.skip(1) + root() + inner);
    }
}

/// A child of a valid directory path under a valid name has a valid path, unless
/// that path is too long. Listing and looking up a name thus agree.
pub proof fn child_path_is_valid(parent: Seq<u8>, name: Seq<u8>)
    requires
        shaped(parent),
        readdir_name_check(name) is Ok,
    ensures
        path_check(joined(parent, name)) == (if joined(parent, name).len() > PATH_MAX {
            Err::<(), FsError>(FsError::Os(LINUX_ENAMETOOLONG))
        } else {
            Ok(())
        }),
{
    lemma_shaped_child(parent, name);
    assert(components_check(joined(parent, name).skip(1))->Ok_0 == ());
}

/// A child of a shaped directory under a valid name lies in that directory and
/// in no other.
pub proof fn children_stay_in_their_directory(parent: Seq<u8>, name: Seq<u8>)
    requires
        shaped(parent),
        readdir_name_check(name) is Ok,
    ensures
        parent_of(joined(parent, name)) == parent,
        parent != root() ==> at_or_under(joined(parent, name), parent),
{
    lemma_shaped_end(parent);
    parent_of_joined(parent, name);
}

} // verus!
