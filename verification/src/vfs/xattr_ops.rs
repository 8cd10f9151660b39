//! Extended-attribute operations: setxattr, getxattr, listxattr, and
//! removexattr.

use super::{bytes_of, path_lookup, VirtualFs};
use crate::abi::{GetxattrReply, ListxattrReply};
use crate::bytes::views;
use crate::error::FsError;
use crate::name_validation::{validate_xattr_name_bytes, xattr_name_check};
use crate::path_fs::PathFs;
use crate::platform::{
    eexist, enodata, erange, LINUX_EEXIST, LINUX_ENODATA, LINUX_ERANGE,
};
use crate::replies::{
    replied_getxattr, replied_listxattr, replied_removexattr, replied_setxattr,
};
use vstd::prelude::*;

verus! {

/// Fail if the attribute already exists.
pub const XATTR_CREATE: u32 = 1;

/// Fail if the attribute does not exist.
pub const XATTR_REPLACE: u32 = 2;

/// The verdict on the create and replace flags, given what the provider says of
/// the attribute. Only a genuine `ENODATA` means that it is absent.
pub open spec fn xattr_flags_check(flags: u32, current: Result<Seq<u8>, FsError>) -> Result<
    (),
    FsError,
> {
    match current {
        Err(e) => if e != FsError::Os(LINUX_ENODATA) {
            Err(e)
        } else if flags & XATTR_REPLACE != 0 {
            Err(FsError::Os(LINUX_ENODATA))
        } else {
            Ok(())
        },
        Ok(_) => if flags & XATTR_CREATE != 0 {
            Err(FsError::Os(LINUX_EEXIST))
        } else {
            Ok(())
        },
    }
}

/// Enforce the create and replace flags against the provider's view.
pub fn check_xattr_flags(flags: u32, current: &Result<Vec<u8>, FsError>) -> (r: Result<
    (),
    FsError,
>)
    ensures
        r == xattr_flags_check(flags, bytes_of(*current)),
{
    let exists = match current {
        Ok(_) => true,
        Err(e) => {
            if !e.is_errno(LINUX_ENODATA) {
                return Err(*e);
            }
            false
        },
    };
    if flags & XATTR_CREATE != 0 && exists {
        return Err(eexist());
    }
    if flags & XATTR_REPLACE != 0 && !exists {
        return Err(enodata());
    }
    Ok(())
}

/// What `getxattr` returns for the provider's reply and a buffer of `size`
/// bytes.
pub open spec fn xattr_shown(
    reply: Result<Seq<u8>, FsError>,
    size: u32,
    r: Result<GetxattrReply, FsError>,
) -> bool {
    match reply {
        Err(e) => r == Err::<GetxattrReply, FsError>(e),
        Ok(value) => if size == 0 {
            r == Ok::<GetxattrReply, FsError>(GetxattrReply::Count(value.len() as u32))
        } else if value.len() > size {
            r == Err::<GetxattrReply, FsError>(FsError::Os(LINUX_ERANGE))
        } else {
            r matches Ok(GetxattrReply::Value(v)) && v@ == value
        },
    }
}

/// Fit an attribute value into a buffer of `size` bytes.
pub fn xattr_reply(reply: Result<Vec<u8>, FsError>, size: u32) -> (r: Result<
    GetxattrReply,
    FsError,
>)
    ensures
        xattr_shown(bytes_of(reply), size, r),
{
    match reply {
        Err(e) => Err(e),
        Ok(value) => if size == 0 {
            Ok(GetxattrReply::Count(value.len() as u32))
        } else if value.len() > size as usize {
            Err(erange())
        } else {
            Ok(GetxattrReply::Value(value))
        },
    }
}

/// The attribute names as the guest sees them: each followed by a NUL.
pub open spec fn name_list(names: Seq<Seq<u8>>) -> Seq<u8>
    decreases names.len(),
{
    if names.len() == 0 {
        Seq::empty()
    } else {
        name_list(names.drop_last()) + names.last() + seq![0u8]
    }
}

/// The verdict on a list of attribute names: that on the first invalid one.
pub open spec fn names_check(names: Seq<Seq<u8>>) -> Result<(), FsError>
    decreases names.len(),
{
    if names.len() == 0 {
        Ok(())
    } else {
        match names_check(names.drop_last()) {
            Err(e) => Err(e),
            Ok(_) => xattr_name_check(names.last()),
        }
    }
}

/// The names of a reply.
pub open spec fn names_of(r: Result<Vec<Vec<u8>>, FsError>) -> Result<Seq<Seq<u8>>, FsError> {
    match r {
        Ok(names) => Ok(views(names@)),
        Err(e) => Err(e),
    }
}

/// What `listxattr` returns for the provider's reply and a buffer of `size`
/// bytes.
pub open spec fn xattrs_shown(
    reply: Result<Seq<Seq<u8>>, FsError>,
    size: u32,
    r: Result<ListxattrReply, FsError>,
) -> bool {
    match reply {
        Err(e) => r == Err::<ListxattrReply, FsError>(e),
        Ok(names) => match names_check(names) {
            Err(e) => r == Err::<ListxattrReply, FsError>(e),
            Ok(_) => if size == 0 {
                r == Ok::<ListxattrReply, FsError>(
                    ListxattrReply::Count(name_list(names).len() as u32),
                )
            } else if name_list(names).len() > size {
                r == Err::<ListxattrReply, FsError>(FsError::Os(LINUX_ERANGE))
            } else {
                r matches Ok(ListxattrReply::Names(v)) && v@ == name_list(names)
            },
        },
    }
}

/// A prefix of a list of names that is refused makes the list refused alike.
proof fn lemma_names_check_prefix(names: Seq<Seq<u8>>, n: int)
    requires
        0 <= n <= names.len(),
        names_check(names.take(n)) is Err,
    ensures
        names_check(names) == names_check(names.take(n)),
    decreases names.len() - n,
{
    if n < names.len() {
        assert(names.take(n + 1).drop_last() =~= names.take(n));
        lemma_names_check_prefix(names, n + 1);
    } else {
        assert(names.take(n) =~= names);
    }
}

/// A list of names is empty or ends in a NUL.
proof fn lemma_name_list_end(names: Seq<Seq<u8>>)
    ensures
        names.len() > 0 <==> name_list(names).len() > 0,
        names.len() > 0 ==> name_list(names).last() == 0,
{
}

/// The guest can tell the names apart: a list of valid names determines them.
pub proof fn name_lists_determine_their_names(a: Seq<Seq<u8>>, b: Seq<Seq<u8>>)
    requires
        names_check(a) is Ok,
        names_check(b) is Ok,
        name_list(a) == name_list(b),
    ensures
        a == b,
    decreases a.len(),
{
    lemma_name_list_end(a);
    lemma_name_list_end(b);
    if a.len() > 0 {
        let front_a = name_list(a.drop_last());
        let front_b = name_list(b.drop_last());
        let last_a = a.last();
        let last_b = b.last();
        lemma_name_list_end(a.drop_last());
        lemma_name_list_end(b.drop_last());
        let both = name_list(a);
        assert(front_a.len() == front_b.len()) by {
            if front_a.len() > front_b.len() {
                let i = front_a.len() - 1;
                assert(both[i] == front_a[i]);
                assert(name_list(b)[i] == last_b[i - front_b.len()]);
                assert(last_b.contains(last_b[i - front_b.len()]));
            }
            if front_b.len() > front_a.len() {
                let i = front_b.len() - 1;
                assert(name_list(b)[i] == front_b[i]);
                assert(both[i] == last_a[i - front_a.len()]);
                assert(last_a.contains(last_a[i - front_a.len()]));
            }
        }
        assert(front_a =~= both.take(front_a.len() as int));
        assert(front_b =~= name_list(b).take(front_b.len() as int));
        assert(last_a =~= both.subrange(front_a.len() as int, both.len() - 1));
        assert(last_b =~= name_list(b).subrange(front_b.len() as int, both.len() - 1));
        name_lists_determine_their_names(a.drop_last(), b.drop_last());
        assert(a =~= a.drop_last().push(last_a));
        assert(b =~= b.drop_last().push(last_b));
    } else {
        assert(a =~= b);
    }
}

/// Validate a list of attribute names.
pub fn validate_xattr_names(names: &Vec<Vec<u8>>) -> (r: Result<(), FsError>)
    ensures
        r == names_check(views(names@)),
{
    let ghost all = views(names@);
    let mut i: usize = 0;
    assert(all.take(0) =~= Seq::<Seq<u8>>::empty());
    while i < names.len()
        invariant
            i <= names.len(),
            all == views(names@),
            names_check(all.take(i as int)) is Ok,
        decreases names.len() - i,
    {
        proof {
            assert(all.take(i + 1).drop_last() =~= all.take(i as int));
            assert(all.take(i + 1).last() == names@[i as int]@);
        }
        match validate_xattr_name_bytes(names[i].as_slice()) {
            Err(e) => {
                proof {
                    lemma_names_check_prefix(all, i + 1);
                }
                return Err(e);
            },
            Ok(_) => {},
        }
        i += 1;
    }
    assert(all.take(all.len() as int) =~= all);
    Ok(())
}

/// Validate the attribute names of a reply and fit their list into a buffer of
/// `size` bytes.
pub fn list_xattr_reply(reply: Result<Vec<Vec<u8>>, FsError>, size: u32) -> (r: Result<
    ListxattrReply,
    FsError,
>)
    ensures
        xattrs_shown(names_of(reply), size, r),
{
    let names = match reply {
        Err(e) => {
            return Err(e);
        },
        Ok(names) => names,
    };
    match validate_xattr_names(&names) {
        Err(e) => {
            return Err(e);
        },
        Ok(_) => {},
    }
    let ghost all = views(names@);
    let mut buf: Vec<u8> = Vec::new();
    let mut i: usize = 0;
    assert(all.take(0) =~= Seq::<Seq<u8>>::empty());
    while i < names.len()
        invariant
            i <= names.len(),
            all == views(names@),
            buf@ == name_list(all.take(i as int)),
        decreases names.len() - i,
    {
        proof {
            assert(all.take(i + 1).drop_last() =~= all.take(i as int));
            assert(all.take(i + 1).last() == names@[i as int]@);
        }
        buf.extend_from_slice(names[i].as_slice());
        buf.push(0);
        assert(buf@ =~= name_list(all.take(i + 1)));
        i += 1;
    }
    assert(all.take(all.len() as int) =~= all);
    if size == 0 {
        Ok(ListxattrReply::Count(buf.len() as u32))
    } else if buf.len() > size as usize {
        Err(erange())
    } else {
        Ok(ListxattrReply::Names(buf))
    }
}

impl<P: PathFs> VirtualFs<P> {
    /// Set an extended attribute.
    pub fn do_setxattr(&self, ino: u64, name: &[u8], value: &[u8], flags: u32) -> (r: Result<
        (),
        FsError,
    >)
        ensures
            match path_lookup(self@, ino) {
                Err(e) => r == Err::<(), FsError>(e),
                Ok(path) => match xattr_name_check(name@) {
                    Err(e) => r == Err::<(), FsError>(e),
                    Ok(_) => if flags & (XATTR_CREATE | XATTR_REPLACE) != 0 {
                        exists|a: Result<Vec<u8>, FsError>| #[trigger]
                            replied_getxattr(self.backend(), path, name@, a) && (
                            match xattr_flags_check(flags, bytes_of(a)) {
                                Err(e) => r == Err::<(), FsError>(e),
                                Ok(_) => replied_setxattr(
                                    self.backend(),
                                    path,
                                    name@,
                                    value@,
                                    flags,
                                    r,
                                ),
                            })
                    } else {
                        replied_setxattr(self.backend(), path, name@, value@, flags, r)
                    },
                },
            },
    {
        match self.path_of(ino) {
            Err(e) => Err(e),
            Ok(path) => {
                match validate_xattr_name_bytes(name) {
                    Err(e) => {
                        return Err(e);
                    },
                    Ok(_) => {},
                }
                if flags & (XATTR_CREATE | XATTR_REPLACE) != 0 {
                    let a = self.provider().getxattr(path.as_slice(), name);
                    assert(replied_getxattr(
                        self.backend(),
                        path_lookup(self@, ino)->Ok_0,
                        name@,
                        a,
                    ));
                    match check_xattr_flags(flags, &a) {
                        Err(e) => {
                            return Err(e);
                        },
                        Ok(_) => {},
                    }
                }
                let b = self.provider().setxattr(path.as_slice(), name, value, flags);
                assert(replied_setxattr(
                    self.backend(),
                    path_lookup(self@, ino)->Ok_0,
                    name@,
                    value@,
                    flags,
                    b,
                ));
                b
            },
        }
    }

    /// Get an extended attribute, or its size where `size` is zero.
    pub fn do_getxattr(&self, ino: u64, name: &[u8], size: u32) -> (r: Result<
        GetxattrReply,
        FsError,
    >)
        ensures
            match path_lookup(self@, ino) {
                Err(e) => r == Err::<GetxattrReply, FsError>(e),
                Ok(path) => match xattr_name_check(name@) {
                    Err(e) => r == Err::<GetxattrReply, FsError>(e),
                    Ok(_) => exists|a: Result<Vec<u8>, FsError>| #[trigger]
                        replied_getxattr(self.backend(), path, name@, a) && xattr_shown(
                            bytes_of(a),
                            size,
                            r,
                        ),
                },
            },
    {
        match self.path_of(ino) {
            Err(e) => Err(e),
            Ok(path) => match validate_xattr_name_bytes(name) {
                Err(e) => Err(e),
                Ok(_) => {
                    let a = self.provider().getxattr(path.as_slice(), name);
                    assert(replied_getxattr(
                        self.backend(),
                        path_lookup(self@, ino)->Ok_0,
                        name@,
                        a,
                    ));
                    xattr_reply(a, size)
                },
            },
        }
    }

    /// List the extended attributes, or the size of the list where `size` is
    /// zero.
    pub fn do_listxattr(&self, ino: u64, size: u32) -> (r: Result<ListxattrReply, FsError>)
        ensures
            match path_lookup(self@, ino) {
                Err(e) => r == Err::<ListxattrReply, FsError>(e),
                Ok(path) => exists|a: Result<Vec<Vec<u8>>, FsError>| #[trigger]
                    replied_listxattr(self.backend(), path, a) && xattrs_shown(
                        names_of(a),
                        size,
                        r,
                    ),
            },
    {
        match self.path_of(ino) {
            Err(e) => Err(e),
            Ok(path) => {
                let a = self.provider().listxattr(path.as_slice());
                assert(replied_listxattr(self.backend(), path_lookup(self@, ino)->Ok_0, a));
                list_xattr_reply(a, size)
            },
        }
    }

    /// Remove an extended attribute.
    pub fn do_removexattr(&self, ino: u64, name: &[u8]) -> (r: Result<(), FsError>)
        ensures
            match path_lookup(self@, ino) {
                Err(e) => r == Err::<(), FsError>(e),
                Ok(path) => match xattr_name_check(name@) {
                    Err(e) => r == Err::<(), FsError>(e),
                    Ok(_) => replied_removexattr(self.backend(), path, name@, r),
                },
            },
    {
        match self.path_of(ino) {
            Err(e) => Err(e),
            Ok(path) => match validate_xattr_name_bytes(name) {
                Err(e) => Err(e),
                Ok(_) => {
                    let a = self.provider().removexattr(path.as_slice(), name);
                    assert(replied_removexattr(
                        self.backend(),
                        path_lookup(self@, ino)->Ok_0,
                        name@,
                        a,
                    ));
                    a
                },
            },
        }
    }
}

} // verus!
