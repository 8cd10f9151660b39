//! Extended attributes.

use super::naming::{has_byte, lemma_readdir_name};
use super::{bytes_in, node_at};
use crate::abi::{GetxattrReply, ListxattrReply};
use crate::bytes::views;
use crate::error::FsError;
use crate::invariants::consistent;
use crate::name_validation::xattr_name_check;
use crate::path_fs::PathFs;
use crate::paths::tombstones_are_private;
use crate::vfs::VirtualFs;
use crate::vfs::xattr_ops::{
    check_xattr_flags, list_xattr_reply, name_list, names_check, xattr_reply,
};
use vstd::prelude::*;

verus! {

/// Whether a byte string can name an attribute.
pub open spec fn attribute_name(name: Seq<u8>) -> bool {
    &&& 1 <= name.len() <= 255
    &&& forall|i: int| 0 <= i < name.len() ==> name[i] != 47 && name[i] != 0
}

/// What is wrong with a byte string that cannot name an attribute: `ENAMETOOLONG` where it is
/// only too long, and else `EINVAL`.
pub open spec fn attribute_fault(name: Seq<u8>) -> FsError {
    if name.len() > 255 && !has_byte(name, 0) && !has_byte(name, 47) {
        FsError::Os(36)
    } else {
        FsError::Os(22)
    }
}

/// The check of attribute names, by the bytes.
pub proof fn lemma_attribute_name(name: Seq<u8>)
    ensures
        xattr_name_check(name) is Ok <==> attribute_name(name),
        xattr_name_check(name) matches Err(e) ==> e == attribute_fault(name),
{
    lemma_readdir_name(name);
    assert(name.contains(0) <==> has_byte(name, 0));
    assert(name.contains(47) <==> has_byte(name, 47));
    if xattr_name_check(name) is Ok {
        assert forall|i: int| 0 <= i < name.len() implies name[i] != 47 && name[i] != 0 by {
            assert(name.contains(name[i]));
        }
    }
}

/// Whether `r` is what a buffer of `size` bytes gets of `value`: its size where the
/// buffer has none, the value where it fits, and else `ERANGE`.
pub open spec fn fits_value(value: Seq<u8>, size: u32, r: Result<GetxattrReply, FsError>) -> bool {
    if size == 0 {
        r is Ok && r->Ok_0 is Count && (value.len() <= u32::MAX ==> r->Ok_0->Count_0
            == value.len())
    } else if value.len() <= size {
        r is Ok && r->Ok_0 is Value && r->Ok_0->Value_0@ == value
    } else {
        r == Err::<GetxattrReply, FsError>(FsError::Os(34))
    }
}

/// A value is returned to every buffer that it fits into, and only to those.
pub proof fn values_are_returned_where_they_fit(
    reply: Result<Vec<u8>, FsError>,
    size: u32,
    r: Result<GetxattrReply, FsError>,
)
    requires
        call_ensures(xattr_reply, (reply, size), r),
    ensures
        match bytes_in(reply) {
            Ok(value) => fits_value(value, size, r),
            Err(e) => r == Err::<GetxattrReply, FsError>(e),
        },
{
}

/// Every answer to a request for the attribute `name` of `path` is `reply`.
pub open spec fn getxattr_is<P: PathFs>(
    p: P,
    path: Seq<u8>,
    name: Seq<u8>,
    reply: Result<Seq<u8>, FsError>,
) -> bool {
    forall|q: &[u8], n: &[u8], a: Result<Vec<u8>, FsError>|
        q@ == path && n@ == name && #[trigger] call_ensures(P::getxattr, (&p, q, n), a)
            ==> bytes_in(a) == reply
}

/// `getxattr` returns the value that the provider has under that name for the path.
pub proof fn getxattr_returns_the_value<P: PathFs>(
    fs: VirtualFs<P>,
    ino: u64,
    path: Seq<u8>,
    name: &[u8],
    size: u32,
    reply: Result<Seq<u8>, FsError>,
    r: Result<GetxattrReply, FsError>,
)
    requires
        node_at(fs@, ino, path),
        getxattr_is(fs.backend(), path, name@, reply),
        call_ensures(VirtualFs::<P>::do_getxattr, (&fs, ino, name, size), r),
    ensures
        if attribute_name(name@) {
            match reply {
                Ok(value) => fits_value(value, size, r),
                Err(e) => r == Err::<GetxattrReply, FsError>(e),
            }
        } else {
            r == Err::<GetxattrReply, FsError>(attribute_fault(name@))
        },
{
    tombstones_are_private(path, ino, ino);
    lemma_attribute_name(name@);
}

/// The size that a query reports is enough: asking again with a buffer of that size
/// returns the value.
pub proof fn reported_sizes_are_enough<P: PathFs>(
    fs: VirtualFs<P>,
    ino: u64,
    path: Seq<u8>,
    name: &[u8],
    value: Seq<u8>,
    query: Result<GetxattrReply, FsError>,
    size: u32,
    r: Result<GetxattrReply, FsError>,
)
    requires
        node_at(fs@, ino, path),
        attribute_name(name@),
        0 < value.len() <= u32::MAX,
        getxattr_is(fs.backend(), path, name@, Ok(value)),
        call_ensures(VirtualFs::<P>::do_getxattr, (&fs, ino, name, 0u32), query),
        query matches Ok(GetxattrReply::Count(n)) ==> size == n,
        call_ensures(VirtualFs::<P>::do_getxattr, (&fs, ino, name, size), r),
    ensures
        query == Ok::<GetxattrReply, FsError>(GetxattrReply::Count(value.len() as u32)),
        r is Ok && r->Ok_0 is Value && r->Ok_0->Value_0@ == value,
{
    getxattr_returns_the_value(fs, ino, path, name, 0, Ok(value), query);
    getxattr_returns_the_value(fs, ino, path, name, size, Ok(value), r);
}

/// Whether setting an attribute is allowed by the flags, given what the provider says of
/// it: flag 1 wants it absent, flag 2 wants it present, and only `ENODATA` means absent.
pub open spec fn flags_allow(flags: u32, current: Result<Seq<u8>, FsError>) -> Result<
    (),
    FsError,
> {
    if flags & 1 == 0 && flags & 2 == 0 {
        Ok(())
    } else if current is Ok && flags & 1 != 0 {
        Err(FsError::Os(17))
    } else if current is Ok {
        Ok(())
    } else if current == Err::<Seq<u8>, FsError>(FsError::Os(61)) && flags & 2 == 0 {
        Ok(())
    } else {
        Err(current->Err_0)
    }
}

/// The two flags together.
proof fn lemma_flags(flags: u32)
    ensures
        flags & (1u32 | 2u32) != 0 <==> flags & 1 != 0 || flags & 2 != 0,
{
    assert(flags & (1u32 | 2u32) != 0 <==> flags & 1 != 0 || flags & 2 != 0) by (bit_vector);
}

/// Every answer to a request to set the attribute `name` of `path` is `reply`.
pub open spec fn setxattr_is<P: PathFs>(
    p: P,
    path: Seq<u8>,
    name: Seq<u8>,
    value: Seq<u8>,
    flags: u32,
    reply: Result<(), FsError>,
) -> bool {
    forall|q: &[u8], n: &[u8], v: &[u8], a: Result<(), FsError>|
        q@ == path && n@ == name && v@ == value && #[trigger] call_ensures(
            P::setxattr,
            (&p, q, n, v, flags),
            a,
        ) ==> a == reply
}

/// `setxattr` hands the name, the value and the flags to the provider, for the path of
/// the inode, unless the flags forbid it.
pub proof fn setxattr_sets_the_value<P: PathFs>(
    fs: VirtualFs<P>,
    ino: u64,
    path: Seq<u8>,
    name: &[u8],
    value: &[u8],
    flags: u32,
    current: Result<Seq<u8>, FsError>,
    reply: Result<(), FsError>,
    r: Result<(), FsError>,
)
    requires
        node_at(fs@, ino, path),
        getxattr_is(fs.backend(), path, name@, current),
        setxattr_is(fs.backend(), path, name@, value@, flags, reply),
        call_ensures(VirtualFs::<P>::do_setxattr, (&fs, ino, name, value, flags), r),
    ensures
        if attribute_name(name@) {
            r == (match flags_allow(flags, current) {
                Ok(_) => reply,
                Err(e) => Err(e),
            })
        } else {
            r == Err::<(), FsError>(attribute_fault(name@))
        },
{
    tombstones_are_private(path, ino, ino);
    lemma_attribute_name(name@);
    lemma_flags(flags);
}

/// The flags are decided by whether the attribute is there.
pub proof fn flags_are_decided_by_presence(
    flags: u32,
    current: &Result<Vec<u8>, FsError>,
    r: Result<(), FsError>,
)
    requires
        flags & 1 != 0 || flags & 2 != 0,
        call_ensures(check_xattr_flags, (flags, current), r),
    ensures
        r is Ok <==> flags_allow(flags, bytes_in(*current)) is Ok,
        r matches Err(e) ==> flags_allow(flags, bytes_in(*current)) == Err::<(), FsError>(e),
{
}

/// Every answer to a removal of the attribute `name` of `path` is `reply`.
pub open spec fn removexattr_is<P: PathFs>(
    p: P,
    path: Seq<u8>,
    name: Seq<u8>,
    reply: Result<(), FsError>,
) -> bool {
    forall|q: &[u8], n: &[u8], a: Result<(), FsError>|
        q@ == path && n@ == name && #[trigger] call_ensures(P::removexattr, (&p, q, n), a) ==> a
            == reply
}

/// `removexattr` removes the named attribute of the path of the inode.
pub proof fn removexattr_removes_the_value<P: PathFs>(
    fs: VirtualFs<P>,
    ino: u64,
    path: Seq<u8>,
    name: &[u8],
    reply: Result<(), FsError>,
    r: Result<(), FsError>,
)
    requires
        node_at(fs@, ino, path),
        removexattr_is(fs.backend(), path, name@, reply),
        call_ensures(VirtualFs::<P>::do_removexattr, (&fs, ino, name), r),
    ensures
        attribute_name(name@) ==> r == reply,
        !attribute_name(name@) ==> r == Err::<(), FsError>(attribute_fault(name@)),
{
    tombstones_are_private(path, ino, ino);
    lemma_attribute_name(name@);
}

/// An inode that is not known or has lost its name has no attributes: `EBADF` and `ESTALE`.
pub proof fn lost_inodes_have_no_attributes<P: PathFs>(
    fs: VirtualFs<P>,
    ino: u64,
    name: &[u8],
    value: &[u8],
    flags: u32,
    size: u32,
    got: Result<GetxattrReply, FsError>,
    put: Result<(), FsError>,
    listed: Result<ListxattrReply, FsError>,
    removed: Result<(), FsError>,
)
    requires
        consistent(fs@),
        !node_at(fs@, ino, fs@.nodes[ino].path),
        call_ensures(VirtualFs::<P>::do_getxattr, (&fs, ino, name, size), got),
        call_ensures(VirtualFs::<P>::do_setxattr, (&fs, ino, name, value, flags), put),
        call_ensures(VirtualFs::<P>::do_listxattr, (&fs, ino, size), listed),
        call_ensures(VirtualFs::<P>::do_removexattr, (&fs, ino, name), removed),
    ensures
        ({
            let lost = FsError::Os(
                if fs@.nodes.contains_key(ino) {
                    116
                } else {
                    9
                },
            );
            &&& got == Err::<GetxattrReply, FsError>(lost)
            &&& put == Err::<(), FsError>(lost)
            &&& listed == Err::<ListxattrReply, FsError>(lost)
            &&& removed == Err::<(), FsError>(lost)
        }),
{
    if fs@.nodes.contains_key(ino) {
        tombstones_are_private(fs@.nodes[ino].path, ino, ino);
    }
}

/// The names of a list, each with a NUL behind it.
pub open spec fn packed(names: Seq<Seq<u8>>) -> Seq<u8>
    decreases names.len(),
{
    if names.len() == 0 {
        Seq::empty()
    } else {
        names[0] + seq![0u8] + packed(names.skip(1))
    }
}

/// A packed list is its front and its last name.
proof fn lemma_packed_last(names: Seq<Seq<u8>>)
    requires
        names.len() > 0,
    ensures
        packed(names) == packed(names.drop_last()) + names.last() + seq![0u8],
    decreases names.len(),
{
    if names.len() > 1 {
        lemma_packed_last(names.skip(1));
        assert(names.skip(1).drop_last() =~= names.drop_last().skip(1));
    } else {
        assert(names.skip(1) =~= Seq::<Seq<u8>>::empty());
        assert(names.drop_last() =~= Seq::<Seq<u8>>::empty());
    }
    assert(packed(names) =~= packed(names.drop_last()) + names.last() + seq![0u8]);
}

/// The list that the guest sees is the packed one.
proof fn lemma_packed(names: Seq<Seq<u8>>)
    ensures
        name_list(names) == packed(names),
    decreases names.len(),
{
    if names.len() > 0 {
        lemma_packed_last(names);
        lemma_packed(names.drop_last());
    }
}

/// A list of names is accepted exactly where each name is.
proof fn lemma_names(names: Seq<Seq<u8>>)
    ensures
        names_check(names) is Ok <==> forall|i: int|
            0 <= i < names.len() ==> attribute_name(#[trigger] names[i]),
    decreases names.len(),
{
    if names.len() > 0 {
        let front = names.drop_last();
        lemma_names(front);
        lemma_attribute_name(names.last());
        if names_check(names) is Ok {
            assert forall|i: int| 0 <= i < names.len() implies attribute_name(
                #[trigger] names[i],
            ) by {
                if i < front.len() {
                    assert(front[i] == names[i]);
                }
            }
        }
        if forall|i: int| 0 <= i < names.len() ==> attribute_name(#[trigger] names[i]) {
            assert forall|i: int| 0 <= i < front.len() implies attribute_name(
                #[trigger] front[i],
            ) by {
                assert(front[i] == names[i]);
            }
            assert(attribute_name(names[names.len() - 1]));
        }
    }
}

/// Whether `i` is the first of `names` that cannot name an attribute.
pub open spec fn first_fault(names: Seq<Seq<u8>>, i: int) -> bool {
    &&& 0 <= i < names.len()
    &&& !attribute_name(names[i])
    &&& forall|j: int| 0 <= j < i ==> attribute_name(#[trigger] names[j])
}

/// A list with a bad name is refused for the first of them.
proof fn lemma_first_fault(names: Seq<Seq<u8>>) -> (i: int)
    requires
        names_check(names) is Err,
    ensures
        first_fault(names, i),
        names_check(names) == Err::<(), FsError>(attribute_fault(names[i])),
    decreases names.len(),
{
    let front = names.drop_last();
    lemma_names(front);
    if names_check(front) is Err {
        let i = lemma_first_fault(front);
        assert(names[i] == front[i]);
        assert forall|j: int| 0 <= j < i implies attribute_name(#[trigger] names[j]) by {
            assert(front[j] == names[j]);
        }
        i
    } else {
        lemma_attribute_name(names.last());
        assert forall|j: int| 0 <= j < names.len() - 1 implies attribute_name(
            #[trigger] names[j],
        ) by {
            assert(front[j] == names[j]);
        }
        names.len() - 1
    }
}

/// Whether `r` is what a buffer of `size` bytes gets of the packed `names`.
pub open spec fn fits_names(
    names: Seq<Seq<u8>>,
    size: u32,
    r: Result<ListxattrReply, FsError>,
) -> bool {
    if exists|i: int| 0 <= i < names.len() && !attribute_name(#[trigger] names[i]) {
        exists|i: int|
            first_fault(names, i) && r == Err::<ListxattrReply, FsError>(
                attribute_fault(#[trigger] names[i]),
            )
    } else if size == 0 {
        r is Ok && r->Ok_0 is Count && (packed(names).len() <= u32::MAX ==> r->Ok_0->Count_0
            == packed(names).len())
    } else if packed(names).len() <= size {
        r is Ok && r->Ok_0 is Names && r->Ok_0->Names_0@ == packed(names)
    } else {
        r == Err::<ListxattrReply, FsError>(FsError::Os(34))
    }
}

/// What a reply with names becomes.
pub proof fn lemma_list(names: Seq<Seq<u8>>)
    ensures
        names_check(names) is Ok <==> !(exists|i: int|
            0 <= i < names.len() && !attribute_name(#[trigger] names[i])),
        name_list(names) == packed(names),
        names_check(names) is Err ==> exists|i: int|
            first_fault(names, i) && names_check(names) == Err::<(), FsError>(
                attribute_fault(#[trigger] names[i]),
            ),
{
    lemma_names(names);
    lemma_packed(names);
    if names_check(names) is Err {
        let i = lemma_first_fault(names);
        assert(first_fault(names, i));
        assert(names_check(names) == Err::<(), FsError>(attribute_fault(names[i])));
    }
}

/// The names of the attributes are returned to every buffer that all of them fit into.
pub proof fn name_lists_are_returned_where_they_fit(
    reply: Result<Vec<Vec<u8>>, FsError>,
    size: u32,
    r: Result<ListxattrReply, FsError>,
)
    requires
        call_ensures(list_xattr_reply, (reply, size), r),
    ensures
        match reply {
            Ok(names) => fits_names(views(names@), size, r),
            Err(e) => r == Err::<ListxattrReply, FsError>(e),
        },
{
    if let Ok(names) = reply {
        lemma_list(views(names@));
    }
}

/// Every answer to a request for the attribute names of `path` is `reply`.
pub open spec fn listxattr_is<P: PathFs>(
    p: P,
    path: Seq<u8>,
    reply: Result<Seq<Seq<u8>>, FsError>,
) -> bool {
    forall|q: &[u8], a: Result<Vec<Vec<u8>>, FsError>|
        q@ == path && #[trigger] call_ensures(P::listxattr, (&p, q), a) ==> (match a {
            Ok(v) => Ok::<Seq<Seq<u8>>, FsError>(Seq::new(v@.len(), |i: int| v@[i]@)),
            Err(e) => Err(e),
        }) == reply
}

/// `listxattr` returns the names that the provider has for the path of the inode.
pub proof fn listxattr_returns_the_names<P: PathFs>(
    fs: VirtualFs<P>,
    ino: u64,
    path: Seq<u8>,
    size: u32,
    reply: Result<Seq<Seq<u8>>, FsError>,
    r: Result<ListxattrReply, FsError>,
)
    requires
        node_at(fs@, ino, path),
        listxattr_is(fs.backend(), path, reply),
        call_ensures(VirtualFs::<P>::do_listxattr, (&fs, ino, size), r),
    ensures
        match reply {
            Ok(names) => fits_names(names, size, r),
            Err(e) => r == Err::<ListxattrReply, FsError>(e),
        },
{
    tombstones_are_private(path, ino, ino);
    if let Ok(names) = reply {
        lemma_list(names);
    }
    assert forall|v: Seq<Vec<u8>>| #[trigger] views(v) == Seq::new(v.len(), |i: int| v[i]@) by {
        assert(views(v) =~= Seq::new(v.len(), |i: int| v[i]@));
    }
}

} // verus!
