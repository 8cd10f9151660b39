//! Names and paths: which ones are accepted, and where they lead.

use super::{bytes_in, child_at, names_child, node_at, proper_name};
use crate::bytes::{
    dot, dotdot, has_tail, head, head_len, lemma_head_len, lemma_head_len_is, root, tail, SLASH,
};
use crate::error::FsError;
use crate::invariants::consistent;
use crate::name_validation::{
    components_check, has_dotdot, memfs_name_check, path_check, readdir_name_check,
    symlink_target_check, validate_memfs_name, validate_name, validate_provider_path_bytes,
    validate_readdir_name, validate_symlink_target_bytes, validate_xattr_name_bytes,
};
use crate::path_fs::PathFs;
use crate::paths::{
    at_or_under, child_path_is_valid, is_at_or_under, join, joined, last_slash, lemma_last_slash,
    lemma_shaped_child, parent_path, shaped, tombstones_are_private,
};
use crate::tables::FsState;
use crate::vfs::{child_lookup, path_lookup, VirtualFs};
use vstd::prelude::*;

verus! {

/// The names that a provider may list, and only those, are proper names. What is
/// refused is refused as empty or a dot name, for a byte in it, or for its
/// length.
pub proof fn listed_names_are_proper(name: &[u8], r: Result<(), FsError>)
    requires
        call_ensures(validate_readdir_name, (name,), r),
    ensures
        r is Ok <==> proper_name(name@),
        r matches Err(e) ==> e == (if name@.len() == 0 || name@ == seq![46u8] || name@ == seq![
            46u8,
            46u8,
        ] {
            FsError::Os(1)
        } else if exists|i: int| 0 <= i < name@.len() && (name@[i] == 47 || name@[i] == 0) {
            FsError::Os(22)
        } else {
            FsError::Os(36)
        }),
{
    lemma_readdir_name(name@);
}

/// A name that the listing check accepts is a proper name.
pub proof fn lemma_readdir_name(name: Seq<u8>)
    ensures
        readdir_name_check(name) is Ok <==> proper_name(name),
        name.contains(47) <==> exists|i: int| 0 <= i < name.len() && name[i] == 47,
        name.contains(0) <==> exists|i: int| 0 <= i < name.len() && name[i] == 0,
        readdir_name_check(name) matches Err(e) ==> e == (if name.len() == 0 || name == seq![46u8]
            || name == seq![46u8, 46u8] {
            FsError::Os(1)
        } else if exists|i: int| 0 <= i < name.len() && (name[i] == 47 || name[i] == 0) {
            FsError::Os(22)
        } else {
            FsError::Os(36)
        }),
{
    assert(dot() =~= seq![46u8]);
    assert(dotdot() =~= seq![46u8, 46u8]);
    if readdir_name_check(name) is Ok {
        assert forall|i: int| 0 <= i < name.len() implies name[i] != 47 && name[i] != 0 by {
            assert(name.contains(name[i]));
        }
    }
}

/// A name that is to address a child may hold anything but a separator, and is
/// neither empty, `.`, `..`, nor longer than 255 bytes.
pub proof fn child_names_are_checked(name: &[u8], r: Result<(), FsError>)
    requires
        call_ensures(validate_memfs_name, (name,), r),
    ensures
        r is Ok <==> {
            &&& 1 <= name@.len() <= 255
            &&& name@ != seq![46u8]
            &&& name@ != seq![46u8, 46u8]
            &&& forall|i: int| 0 <= i < name@.len() ==> name@[i] != 47
        },
        name@.len() == 0 ==> r == Err::<(), FsError>(FsError::Os(22)),
        name@ == seq![46u8] || name@ == seq![46u8, 46u8] ==> r == Err::<(), FsError>(
            FsError::Os(1),
        ),
        name@.len() > 255 && (forall|i: int| 0 <= i < name@.len() ==> name@[i] != 47) ==> r
            == Err::<(), FsError>(FsError::Os(36)),
        (exists|i: int| 0 <= i < name@.len() && name@[i] == 47) ==> r == Err::<(), FsError>(
            FsError::Os(1),
        ),
{
    lemma_readdir_name(name@);
    if memfs_name_check(name@) is Ok {
        assert forall|i: int| 0 <= i < name@.len() implies name@[i] != 47 by {
            assert(name@.contains(name@[i]));
        }
    }
}

/// A name that is looked up may also be `.` or long, but neither empty, `..`, nor
/// a path.
pub proof fn looked_up_names_are_checked(name: &[u8], r: Result<(), FsError>)
    requires
        call_ensures(validate_name, (name,), r),
    ensures
        name@.len() == 0 ==> r == Err::<(), FsError>(FsError::Os(22)),
        name@ == seq![46u8, 46u8] ==> r == Err::<(), FsError>(FsError::Os(1)),
        (exists|i: int| 0 <= i < name@.len() && name@[i] == 47) ==> r == Err::<(), FsError>(
            FsError::Os(1),
        ),
        name@.len() > 0 && name@ != seq![46u8, 46u8] && (forall|i: int|
            0 <= i < name@.len() ==> name@[i] != 47) ==> r is Ok,
{
    lemma_readdir_name(name@);
}

/// The name of an extended attribute is 1 to 255 bytes without separator and
/// NUL.
pub proof fn attribute_names_are_checked(name: &[u8], r: Result<(), FsError>)
    requires
        call_ensures(validate_xattr_name_bytes, (name,), r),
    ensures
        r is Ok <==> 1 <= name@.len() <= 255 && forall|i: int|
            0 <= i < name@.len() ==> name@[i] != 47 && name@[i] != 0,
        r is Err ==> r == Err::<(), FsError>(
            if name@.len() > 255 && forall|i: int|
                0 <= i < name@.len() ==> name@[i] != 47 && name@[i] != 0 {
                FsError::Os(36)
            } else {
                FsError::Os(22)
            },
        ),
{
    lemma_readdir_name(name@);
    if r is Ok {
        assert forall|i: int| 0 <= i < name@.len() implies name@[i] != 47 && name@[i] != 0 by {
            assert(name@.contains(name@[i]));
        }
    }
}

/// The path that a list of names spells: each behind a separator.
pub open spec fn spelled(names: Seq<Seq<u8>>) -> Seq<u8>
    decreases names.len(),
{
    if names.len() == 0 {
        Seq::empty()
    } else {
        seq![47u8] + names[0] + spelled(names.skip(1))
    }
}

/// Whether every name of a list is proper.
pub open spec fn all_proper(names: Seq<Seq<u8>>) -> bool {
    forall|i: int| 0 <= i < names.len() ==> proper_name(#[trigger] names[i])
}

/// What proper names spell passes the check of components.
proof fn lemma_spelled_is_accepted(names: Seq<Seq<u8>>)
    requires
        names.len() > 0,
        all_proper(names),
    ensures
        components_check(spelled(names).skip(1)) is Ok,
        !spelled(names).contains(0),
        spelled(names).len() > 1,
        spelled(names)[0] == 47,
    decreases names.len(),
{
    let rest = names.skip(1);
    let whole = spelled(names);
    let s = whole.skip(1);
    let n = names[0].len() as int;
    assert(proper_name(names[0]));
    lemma_readdir_name(names[0]);
    if rest.len() > 0 {
        assert forall|i: int| 0 <= i < rest.len() implies proper_name(#[trigger] rest[i]) by {
            assert(rest[i] == names[i + 1]);
        }
        lemma_spelled_is_accepted(rest);
        assert(s =~= names[0] + spelled(rest));
        assert(s[n] == 47);
    } else {
        assert(spelled(rest) =~= Seq::<u8>::empty());
        assert(s =~= names[0]);
    }
    assert forall|i: int| 0 <= i < n implies s[i] != SLASH by {
        assert(s[i] == names[0][i]);
    }
    lemma_head_len_is(s, n);
    assert(head(s) =~= names[0]);
    if rest.len() > 0 {
        assert(tail(s) =~= spelled(rest).skip(1));
    }
    if whole.contains(0) {
        let i = choose|i: int| 0 <= i < whole.len() && whole[i] == 0;
        if 0 < i <= n {
            assert(whole[i] == names[0][i - 1]);
        } else if i > n {
            assert(whole[i] == spelled(rest)[i - n - 1]);
            assert(spelled(rest).contains(0));
        }
    }
}

/// What passes the check of components is spelled by proper names.
proof fn lemma_accepted_is_spelled(s: Seq<u8>) -> (names: Seq<Seq<u8>>)
    requires
        components_check(s) is Ok,
    ensures
        names.len() > 0,
        all_proper(names),
        seq![47u8] + s == spelled(names),
    decreases s.len(),
{
    lemma_head_len(s);
    lemma_readdir_name(head(s));
    if has_tail(s) {
        let rest = lemma_accepted_is_spelled(tail(s));
        let names = seq![head(s)] + rest;
        assert(names.skip(1) =~= rest);
        assert(seq![47u8] + s =~= seq![47u8] + head(s) + (seq![47u8] + tail(s)));
        names
    } else {
        let names = seq![head(s)];
        assert(names.skip(1) =~= Seq::<Seq<u8>>::empty());
        assert(spelled(names.skip(1)) =~= Seq::<u8>::empty());
        assert(seq![47u8] + s =~= seq![47u8] + head(s) + Seq::<u8>::empty());
        names
    }
}

/// The paths that reach a provider are the root and what proper names spell, up
/// to 4096 bytes: every such path is accepted.
pub proof fn spelled_paths_are_accepted(
    bytes: &[u8],
    names: Seq<Seq<u8>>,
    r: Result<(), FsError>,
)
    requires
        call_ensures(validate_provider_path_bytes, (bytes,), r),
        all_proper(names),
        bytes@ == (if names.len() == 0 {
            seq![47u8]
        } else {
            spelled(names)
        }),
    ensures
        bytes@.len() <= 4096 ==> r is Ok,
        bytes@.len() > 4096 ==> r == Err::<(), FsError>(FsError::Os(36)),
{
    if names.len() > 0 {
        lemma_spelled_is_accepted(names);
    }
}

/// No other path is accepted.
pub proof fn accepted_paths_are_spelled(bytes: &[u8], r: Result<(), FsError>)
    requires
        call_ensures(validate_provider_path_bytes, (bytes,), r),
        r is Ok,
    ensures
        bytes@.len() <= 4096,
        bytes@ == seq![47u8] || exists|names: Seq<Seq<u8>>|
            names.len() > 0 && #[trigger] all_proper(names) && bytes@ == spelled(names),
{
    if bytes@.len() == 1 {
        assert(bytes@ =~= seq![47u8]);
    } else {
        let names = lemma_accepted_is_spelled(bytes@.skip(1));
        assert(bytes@ =~= seq![47u8] + bytes@.skip(1));
        assert(all_proper(names));
    }
}

/// A bad name behind good ones fails the check of components.
proof fn lemma_bad_component(front: Seq<Seq<u8>>, name: Seq<u8>, back: Seq<u8>)
    requires
        all_proper(front),
        !has_byte(name, 47),
        !has_byte(name, 0),
        !proper_name(name),
        back.len() == 0 || back[0] == 47,
    ensures
        components_check((spelled(front) + seq![47u8] + name + back).skip(1)) == Err::<
            (),
            FsError,
        >(FsError::Os(component_fault(name))),
    decreases front.len(),
{
    let whole = spelled(front) + seq![47u8] + name + back;
    let s = whole.skip(1);
    if front.len() == 0 {
        let n = name.len() as int;
        assert(spelled(front) =~= Seq::<u8>::empty());
        assert(s =~= name + back);
        assert forall|i: int| 0 <= i < n implies s[i] != SLASH by {
            assert(s[i] == name[i]);
        }
        lemma_head_len_is(s, n);
        assert(head(s) =~= name);
        lemma_readdir_name(name);
        assert(name.contains(47) <==> has_byte(name, 47));
        assert(name.contains(0) <==> has_byte(name, 0));
    } else {
        let n = front[0].len() as int;
        let rest = front.skip(1);
        let later = spelled(rest) + seq![47u8] + name + back;
        assert(proper_name(front[0]));
        lemma_readdir_name(front[0]);
        assert forall|i: int| 0 <= i < rest.len() implies proper_name(#[trigger] rest[i]) by {
            assert(rest[i] == front[i + 1]);
        }
        lemma_bad_component(rest, name, back);
        assert(later[0] == 47) by {
            if rest.len() > 0 {
                assert(spelled(rest)[0] == 47);
            } else {
                assert(spelled(rest) =~= Seq::<u8>::empty());
            }
        }
        assert(s =~= front[0] + later);
        assert forall|i: int| 0 <= i < n implies s[i] != SLASH by {
            assert(s[i] == front[0][i]);
        }
        lemma_head_len_is(s, n);
        assert(head(s) =~= front[0]);
        assert(tail(s) =~= later.skip(1));
    }
}

/// What is wrong with a component that is not a proper name: `EINVAL` where it is empty,
/// `EPERM` where it is a dot name, and else `ENAMETOOLONG`.
pub open spec fn component_fault(name: Seq<u8>) -> i32 {
    if name.len() == 0 {
        22
    } else if name == seq![46u8] || name == seq![46u8, 46u8] {
        1
    } else {
        36
    }
}

/// A path is refused with `EINVAL` where it does not start at the root or holds a NUL, with
/// `ENAMETOOLONG` where it is too long, and else for the first of its names that is bad.
pub proof fn bad_paths_are_refused_for_their_first_fault(
    bytes: &[u8],
    front: Seq<Seq<u8>>,
    name: Seq<u8>,
    back: Seq<u8>,
    r: Result<(), FsError>,
)
    requires
        call_ensures(validate_provider_path_bytes, (bytes,), r),
    ensures
        bytes@.len() == 0 || bytes@[0] != 47 ==> r == Err::<(), FsError>(FsError::Os(22)),
        bytes@.len() > 4096 && bytes@[0] == 47 ==> r == Err::<(), FsError>(FsError::Os(36)),
        1 <= bytes@.len() <= 4096 && bytes@[0] == 47 && has_byte(bytes@, 0) ==> r == Err::<
            (),
            FsError,
        >(FsError::Os(22)),
        2 <= bytes@.len() <= 4096 && !has_byte(bytes@, 0) && bytes@ == spelled(front) + seq![47u8]
            + name + back && all_proper(front) && !has_byte(name, 47) && !proper_name(name) && (
        back.len() == 0 || back[0] == 47) ==> r == Err::<(), FsError>(
            FsError::Os(component_fault(name)),
        ),
{
    assert(bytes@.contains(0) <==> has_byte(bytes@, 0));
    if 2 <= bytes@.len() <= 4096 && !has_byte(bytes@, 0) && bytes@ == spelled(front) + seq![47u8]
        + name + back && all_proper(front) && !has_byte(name, 47) && !proper_name(name) && (
    back.len() == 0 || back[0] == 47) {
        if has_byte(name, 0) {
            let i = choose|i: int| 0 <= i < name.len() && #[trigger] name[i] == 0;
            assert(bytes@[spelled(front).len() + 1 + i] == 0);
        }
        assert(bytes@[0] == 47) by {
            if front.len() > 0 {
                assert(spelled(front)[0] == 47);
            } else {
                assert(spelled(front) =~= Seq::<u8>::empty());
            }
        }
        lemma_bad_component(front, name, back);
    }
}

/// Whether `..` stands between separators or ends at position `at`.
pub open spec fn leads_up_at(s: Seq<u8>, at: int) -> bool {
    &&& 0 <= at
    &&& at + 2 <= s.len()
    &&& s[at] == 46
    &&& s[at + 1] == 46
    &&& at == 0 || s[at - 1] == 47
    &&& at + 2 == s.len() || s[at + 2] == 47
}

/// A list of components has a `..` exactly where one stands in it.
proof fn lemma_has_dotdot(s: Seq<u8>)
    ensures
        has_dotdot(s) <==> exists|at: int| leads_up_at(s, at),
    decreases s.len(),
{
    lemma_head_len(s);
    let n = head_len(s) as int;
    assert(dotdot() =~= seq![46u8, 46u8]);
    if has_tail(s) {
        lemma_has_dotdot(tail(s));
    }
    if head(s) == dotdot() {
        assert(n == 2);
        assert(head(s)[0] == s[0] && head(s)[1] == s[1]);
        assert(leads_up_at(s, 0));
    } else if has_tail(s) && has_dotdot(tail(s)) {
        let at = choose|at: int| leads_up_at(tail(s), at);
        assert(leads_up_at(s, at + n + 1));
    }
    if exists|at: int| leads_up_at(s, at) {
        let at = choose|at: int| leads_up_at(s, at);
        if at > n {
            assert(leads_up_at(tail(s), at - n - 1));
        } else {
            assert(at == 0) by {
                if at > 0 {
                    assert(s[at - 1] == 47);
                    assert(at - 1 == n);
                }
            }
            lemma_head_len_is(s, 2);
            assert(head(s) =~= dotdot());
        }
    }
}

/// The target of a symbolic link is 1 to 4096 bytes without NUL that neither
/// start at the root nor lead upwards anywhere.
pub proof fn link_targets_stay_below(target: &[u8], r: Result<(), FsError>)
    requires
        call_ensures(validate_symlink_target_bytes, (target,), r),
    ensures
        r is Ok <==> {
            &&& 1 <= target@.len() <= 4096
            &&& forall|i: int| 0 <= i < target@.len() ==> target@[i] != 0
            &&& target@[0] != 47
            &&& forall|at: int| !leads_up_at(target@, at)
        },
        target@.len() == 0 ==> r == Err::<(), FsError>(FsError::Os(22)),
        target@.len() > 4096 ==> r == Err::<(), FsError>(FsError::Os(36)),
        1 <= target@.len() <= 4096 && (exists|i: int| 0 <= i < target@.len() && target@[i] == 0)
            ==> r == Err::<(), FsError>(FsError::Os(22)),
        1 <= target@.len() <= 4096 && (forall|i: int| 0 <= i < target@.len() ==> target@[i] != 0)
            && (target@[0] == 47 || exists|at: int| leads_up_at(target@, at)) ==> r == Err::<
            (),
            FsError,
        >(FsError::Os(1)),
{
    lemma_link_target(target@);
}

/// The check of a link target, by its bytes.
pub proof fn lemma_link_target(target: Seq<u8>)
    ensures
        symlink_target_check(target) is Ok <==> {
            &&& 1 <= target.len() <= 4096
            &&& forall|i: int| 0 <= i < target.len() ==> target[i] != 0
            &&& target[0] != 47
            &&& forall|at: int| !leads_up_at(target, at)
        },
        target.contains(0) <==> exists|i: int| 0 <= i < target.len() && target[i] == 0,
        has_dotdot(target) <==> exists|at: int| leads_up_at(target, at),
{
    lemma_has_dotdot(target);
    if !target.contains(0) {
        assert forall|i: int| 0 <= i < target.len() implies target[i] != 0 by {
            assert(target.contains(target[i]));
        }
    }
}

/// Joining a directory and a name gives the path of that entry.
pub proof fn joining_names_the_child(parent: &[u8], name: &[u8], path: Vec<u8>)
    requires
        call_ensures(join, (parent, name), path),
    ensures
        names_child(path@, parent@, name@),
{
    lemma_names_child(parent@, name@, path@);
}

/// The path of an entry is the directory, a separator and the name.
pub proof fn lemma_names_child(dir: Seq<u8>, name: Seq<u8>, path: Seq<u8>)
    ensures
        names_child(joined(dir, name), dir, name),
        names_child(path, dir, name) ==> path == joined(dir, name),
{
    let j = joined(dir, name);
    let at = j.len() - name.len() - 1;
    assert(root() =~= seq![47u8]);
    assert(j.skip(at + 1) =~= name);
    assert(j.take(at) =~= (if dir == seq![47u8] {
        Seq::<u8>::empty()
    } else {
        dir
    }));
    if names_child(path, dir, name) {
        let k = path.len() - name.len() - 1;
        assert(path =~= path.take(k) + seq![47u8] + path.skip(k + 1));
        assert(path =~= j);
    }
}

/// The parent of a path is what stands before its last separator, and the root
/// where nothing does.
pub proof fn parents_end_at_the_last_separator(
    path: &[u8],
    dir: Seq<u8>,
    name: Seq<u8>,
    r: Vec<u8>,
)
    requires
        call_ensures(parent_path, (path,), r),
        path@ == dir + seq![47u8] + name,
        forall|i: int| 0 <= i < name.len() ==> name[i] != 47,
    ensures
        r@ == (if dir.len() == 0 {
            seq![47u8]
        } else {
            dir
        }),
{
    lemma_last_slash(path@);
    let at = dir.len() as int;
    assert(path@[at] == 47);
    assert forall|i: int| at < i < path@.len() implies path@[i] != SLASH by {
        assert(path@[i] == name[i - at - 1]);
    }
    assert(last_slash(path@) == at);
    assert(path@.take(at) =~= dir);
    assert(root() =~= seq![47u8]);
}

/// A path is at or under another one exactly where it is that path, or continues
/// it behind a separator; every absolute path is under the root.
pub proof fn being_under_is_continuing(path: &[u8], base: &[u8], r: bool)
    requires
        call_ensures(is_at_or_under, (path, base), r),
    ensures
        base@ != seq![47u8] ==> (r <==> path@ == base@ || exists|rest: Seq<u8>|
            path@ == #[trigger] (base@ + seq![47u8] + rest)),
        base@ == seq![47u8] ==> (r <==> path@.len() > 0 && path@[0] == 47),
{
    lemma_at_or_under(path@, base@);
}

/// Being at or under a path, by the bytes.
pub proof fn lemma_at_or_under(path: Seq<u8>, base: Seq<u8>)
    ensures
        base != seq![47u8] ==> (at_or_under(path, base) <==> path == base || exists|rest: Seq<u8>|
            path == #[trigger] (base + seq![47u8] + rest)),
        base == seq![47u8] ==> (at_or_under(path, base) <==> path.len() > 0 && path[0] == 47),
{
    let n = base.len() as int;
    assert(root() =~= seq![47u8]);
    if base == seq![47u8] {
        if path.len() > 0 && path[0] == 47 {
            assert(path.take(1) =~= base);
        }
        if at_or_under(path, base) {
            assert(path.take(1)[0] == path[0]);
        }
    } else {
        if at_or_under(path, base) {
            if path.len() == base.len() {
                assert(path.take(n) =~= path);
            } else {
                assert(path =~= base + seq![47u8] + path.skip(n + 1)) by {
                    assert(path =~= path.take(n) + seq![path[n]] + path.skip(n + 1));
                }
            }
        }
        if path == base {
            assert(path.take(n) =~= base);
        }
        if exists|rest: Seq<u8>| path == #[trigger] (base + seq![47u8] + rest) {
            let rest = choose|rest: Seq<u8>| path == #[trigger] (base + seq![47u8] + rest);
            assert(path.take(n) =~= base);
            assert(path[n] == 47);
        }
    }
}

/// A path holds a byte exactly where one of its two parts does.
proof fn lemma_joined_contains(dir: Seq<u8>, name: Seq<u8>)
    ensures
        name.contains(0) ==> joined(dir, name).contains(0),
{
    if name.contains(0) {
        let i = choose|i: int| 0 <= i < name.len() && name[i] == 0;
        let j = joined(dir, name);
        assert(j[j.len() - name.len() + i] == 0);
    }
}

/// A proper name in a known directory is resolved to the path that it names.
pub proof fn lemma_child(s: FsState, parent: u64, name: Seq<u8>, path: Seq<u8>)
    requires
        child_at(s, parent, name, path),
    ensures
        child_lookup(s, parent, name) == Ok::<Seq<u8>, FsError>(path),
        memfs_name_check(name) is Ok,
        path_check(path) is Ok,
        path_lookup(s, parent) == Ok::<Seq<u8>, FsError>(s.nodes[parent].path),
        shaped(path),
        path.len() > 1,
{
    let dir = s.nodes[parent].path;
    tombstones_are_private(dir, parent, parent);
    lemma_names_child(dir, name, path);
    lemma_readdir_name(name);
    assert(shaped(dir));
    lemma_shaped_child(dir, name);
    child_path_is_valid(dir, name);
}

/// What a name is resolved to is named by it.
pub proof fn lemma_resolved(s: FsState, parent: u64, name: Seq<u8>, path: Seq<u8>)
    requires
        consistent(s),
        memfs_name_check(name) is Ok,
        path_lookup(s, parent) is Ok,
        path == joined(path_lookup(s, parent)->Ok_0, name),
        path_check(path) is Ok,
    ensures
        child_at(s, parent, name, path),
{
    let dir = s.nodes[parent].path;
    tombstones_are_private(dir, parent, parent);
    lemma_readdir_name(name);
    lemma_names_child(dir, name, path);
    if name.contains(0) {
        let i = choose|i: int| 0 <= i < name.len() && name[i] == 0;
        assert(path[path.len() - name.len() + i] == 0);
        assert(path.contains(0));
    }
}

/// Whether a byte occurs in a byte string.
pub open spec fn has_byte(s: Seq<u8>, b: u8) -> bool {
    exists|i: int| 0 <= i < s.len() && #[trigger] s[i] == b
}

/// What is wrong with a byte string as the name of a child: `EINVAL` where it is empty,
/// `EPERM` where it is a dot name or a path, `ENAMETOOLONG` where it is too long, or nothing.
pub open spec fn label_fault(name: Seq<u8>) -> i32 {
    if name.len() == 0 {
        22
    } else if name == seq![46u8] || name == seq![46u8, 46u8] || has_byte(name, 47) {
        1
    } else if name.len() > 255 {
        36
    } else {
        0
    }
}

/// What is wrong with an inode: `EBADF` where it is not known, `ESTALE` where it has lost its
/// name, or nothing.
pub open spec fn inode_fault(s: FsState, ino: u64) -> i32 {
    if !s.nodes.contains_key(ino) {
        9
    } else if !node_at(s, ino, s.nodes[ino].path) {
        116
    } else {
        0
    }
}

/// What is wrong with the path of a child: `ENAMETOOLONG` where it is longer than 4096
/// bytes, `EINVAL` where the name holds a NUL, or nothing.
pub open spec fn path_fault(dir: Seq<u8>, name: Seq<u8>) -> i32 {
    if (if dir == seq![47u8] {
        0
    } else {
        dir.len() as int
    }) + 1 + name.len() > 4096 {
        36
    } else if has_byte(name, 0) {
        22
    } else {
        0
    }
}

/// What is wrong with a name in a directory: first the name, then the directory, then the
/// path that they lead to.
pub open spec fn name_fault(s: FsState, parent: u64, name: Seq<u8>) -> i32 {
    if label_fault(name) != 0 {
        label_fault(name)
    } else if inode_fault(s, parent) != 0 {
        inode_fault(s, parent)
    } else {
        path_fault(s.nodes[parent].path, name)
    }
}

/// The check of a name, by its faults.
pub proof fn lemma_label_fault(name: Seq<u8>)
    ensures
        memfs_name_check(name) == (if label_fault(name) == 0 {
            Ok::<(), FsError>(())
        } else {
            Err(FsError::Os(label_fault(name)))
        }),
{
    lemma_readdir_name(name);
    assert(dot() =~= seq![46u8]);
    assert(dotdot() =~= seq![46u8, 46u8]);
    assert(name.contains(47) <==> has_byte(name, 47));
}

/// The lookup of an inode, by its faults.
pub proof fn lemma_inode_fault(s: FsState, ino: u64)
    requires
        consistent(s),
    ensures
        path_lookup(s, ino) == (if inode_fault(s, ino) == 0 {
            Ok::<Seq<u8>, FsError>(s.nodes[ino].path)
        } else {
            Err(FsError::Os(inode_fault(s, ino)))
        }),
        inode_fault(s, ino) == 0 ==> shaped(s.nodes[ino].path),
{
    if s.nodes.contains_key(ino) {
        tombstones_are_private(s.nodes[ino].path, ino, ino);
    }
}

/// The check of the path of a child, by its faults.
pub proof fn lemma_path_fault(dir: Seq<u8>, name: Seq<u8>)
    requires
        shaped(dir),
        label_fault(name) == 0,
    ensures
        path_check(joined(dir, name)) == (if path_fault(dir, name) == 0 {
            Ok::<(), FsError>(())
        } else {
            Err(FsError::Os(path_fault(dir, name)))
        }),
{
    let path = joined(dir, name);
    lemma_label_fault(name);
    lemma_readdir_name(name);
    lemma_joined_contains(dir, name);
    assert(name.contains(0) <==> has_byte(name, 0));
    assert(root() =~= seq![47u8]);
    assert(path[0] == 47);
    if path_fault(dir, name) == 0 {
        assert forall|i: int| 0 <= i < name.len() implies name[i] != 47 && name[i] != 0 by {
            if name[i] == 47 {
                assert(has_byte(name, 47));
            }
            if name[i] == 0 {
                assert(has_byte(name, 0));
            }
        }
        assert(proper_name(name));
        lemma_shaped_child(dir, name);
        child_path_is_valid(dir, name);
    }
}

/// The resolution of a name, by its faults.
pub proof fn lemma_name_fault(s: FsState, parent: u64, name: Seq<u8>)
    requires
        consistent(s),
    ensures
        child_lookup(s, parent, name) is Ok <==> name_fault(s, parent, name) == 0,
        name_fault(s, parent, name) != 0 ==> child_lookup(s, parent, name) == Err::<
            Seq<u8>,
            FsError,
        >(FsError::Os(name_fault(s, parent, name))),
{
    lemma_label_fault(name);
    lemma_inode_fault(s, parent);
    if label_fault(name) == 0 && inode_fault(s, parent) == 0 {
        lemma_path_fault(s.nodes[parent].path, name);
    }
}

/// What is wrong with the target of a link: `EINVAL` where it is empty, `ENAMETOOLONG` where
/// it is too long, `EINVAL` where it holds a NUL, `EPERM` where it leads out of the tree, or
/// nothing.
pub open spec fn target_fault(target: Seq<u8>) -> i32 {
    if target.len() == 0 {
        22
    } else if target.len() > 4096 {
        36
    } else if has_byte(target, 0) {
        22
    } else if target[0] == 47 || exists|at: int| leads_up_at(target, at) {
        1
    } else {
        0
    }
}

/// The check of a link target, by its faults.
pub proof fn lemma_target_fault(target: Seq<u8>)
    ensures
        symlink_target_check(target) == (if target_fault(target) == 0 {
            Ok::<(), FsError>(())
        } else {
            Err(FsError::Os(target_fault(target)))
        }),
{
    lemma_link_target(target);
    assert(target.contains(0) <==> has_byte(target, 0));
}

/// Resolving a name in a directory gives the path of that entry, for every proper
/// name whose path is not too long, and for no other name. A directory that is
/// not known is `EBADF`, one that has lost its name `ESTALE`.
pub proof fn children_are_found_by_name<P: PathFs>(
    fs: VirtualFs<P>,
    parent: u64,
    name: &[u8],
    path: Seq<u8>,
    r: Result<Vec<u8>, FsError>,
)
    requires
        consistent(fs@),
        call_ensures(VirtualFs::<P>::child_path, (&fs, parent, name), r),
    ensures
        child_at(fs@, parent, name@, path) ==> bytes_in(r) == Ok::<Seq<u8>, FsError>(path),
        r matches Ok(found) ==> child_at(fs@, parent, name@, found@),
        r matches Err(e) ==> e == FsError::Os(name_fault(fs@, parent, name@)),
        proper_name(name@) && !fs@.nodes.contains_key(parent) ==> bytes_in(r) == Err::<
            Seq<u8>,
            FsError,
        >(FsError::Os(9)),
        proper_name(name@) && fs@.nodes.contains_key(parent) && !node_at(
            fs@,
            parent,
            fs@.nodes[parent].path,
        ) ==> bytes_in(r) == Err::<Seq<u8>, FsError>(FsError::Os(116)),
{
    lemma_readdir_name(name@);
    lemma_name_fault(fs@, parent, name@);
    if child_at(fs@, parent, name@, path) {
        lemma_child(fs@, parent, name@, path);
    }
    if fs@.nodes.contains_key(parent) {
        tombstones_are_private(fs@.nodes[parent].path, parent, parent);
    }
    if let Ok(found) = r {
        let dir = fs@.nodes[parent].path;
        lemma_names_child(dir, name@, found@);
        lemma_joined_contains(dir, name@);
        assert(readdir_name_check(name@) is Ok);
    }
}

/// An inode leads to its path. One that is not known is `EBADF`, one that has
/// lost its name `ESTALE`.
pub proof fn inodes_lead_to_their_path<P: PathFs>(
    fs: VirtualFs<P>,
    ino: u64,
    r: Result<Vec<u8>, FsError>,
)
    requires
        consistent(fs@),
        call_ensures(VirtualFs::<P>::path_of, (&fs, ino), r),
    ensures
        r matches Ok(path) ==> node_at(fs@, ino, path@),
        !fs@.nodes.contains_key(ino) ==> bytes_in(r) == Err::<Seq<u8>, FsError>(FsError::Os(9)),
        fs@.nodes.contains_key(ino) && fs@.nodes[ino].path[0] != 47 ==> bytes_in(r) == Err::<
            Seq<u8>,
            FsError,
        >(FsError::Os(116)),
        node_at(fs@, ino, fs@.nodes[ino].path) ==> r is Ok,
{
    if fs@.nodes.contains_key(ino) {
        tombstones_are_private(fs@.nodes[ino].path, ino, ino);
    }
}

} // verus!
