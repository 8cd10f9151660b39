//! Name and path validation.
//!
//! Every operation that accepts a guest-provided directory entry name validates
//! it here, so that no name can reach outside its directory.

use crate::bytes::{
    contains_byte, dot, dotdot, has_tail, head, head_len, is_dot, is_dotdot, lemma_head_len,
    lemma_head_len_is, tail, SLASH,
};
use crate::error::FsError;
use crate::platform::{
    einval, enametoolong, eperm, LINUX_EINVAL, LINUX_ENAMETOOLONG, LINUX_EPERM,
};
use vstd::prelude::*;

verus! {

/// Maximum component length (`NAME_MAX` on Linux).
pub const NAME_MAX: usize = 255;

/// Maximum absolute path length (`PATH_MAX` on Linux).
pub const PATH_MAX: usize = 4096;

/// Maximum symlink target length accepted on the wire.
pub const MAX_SYMLINK_TARGET: usize = 4096;

/// The verdict on a directory entry name: it must not be empty, `..`, or hold
/// a separator.
pub open spec fn name_check(name: Seq<u8>) -> Result<(), FsError> {
    if name.len() == 0 {
        Err(FsError::Os(LINUX_EINVAL))
    } else if name == dotdot() || name.contains(SLASH) {
        Err(FsError::Os(LINUX_EPERM))
    } else {
        Ok(())
    }
}

/// Validate a directory entry name, blocking traversal.
///
/// Rejects empty names, `..`, and names containing `/`. Backslash is allowed:
/// it is an ordinary character in a Linux name.
pub fn validate_name(name: &[u8]) -> (r: Result<(), FsError>)
    ensures
        r == name_check(name@),
{
    if name.len() == 0 {
        return Err(einval());
    }
    if is_dotdot(name) {
        return Err(eperm());
    }
    if contains_byte(name, SLASH) {
        return Err(eperm());
    }
    Ok(())
}

/// The verdict on a child name: that of [`name_check`], and neither `.` nor
/// longer than [`NAME_MAX`].
pub open spec fn memfs_name_check(name: Seq<u8>) -> Result<(), FsError> {
    match name_check(name) {
        Err(e) => Err(e),
        Ok(_) => if name == dot() {
            Err(FsError::Os(LINUX_EPERM))
        } else if name.len() > NAME_MAX {
            Err(FsError::Os(LINUX_ENAMETOOLONG))
        } else {
            Ok(())
        },
    }
}

/// Validate a directory entry name that is to address a child.
pub fn validate_memfs_name(name: &[u8]) -> (r: Result<(), FsError>)
    ensures
        r == memfs_name_check(name@),
{
    match validate_name(name) {
        Err(e) => {
            return Err(e);
        },
        Ok(_) => {},
    }
    if is_dot(name) {
        return Err(eperm());
    }
    if name.len() > NAME_MAX {
        return Err(enametoolong());
    }
    Ok(())
}

/// The verdict on a name listed by a provider.
pub open spec fn readdir_name_check(name: Seq<u8>) -> Result<(), FsError> {
    if name.len() == 0 || name == dot() || name == dotdot() {
        Err(FsError::Os(LINUX_EPERM))
    } else if name.contains(SLASH) || name.contains(0) {
        Err(FsError::Os(LINUX_EINVAL))
    } else if name.len() > NAME_MAX {
        Err(FsError::Os(LINUX_ENAMETOOLONG))
    } else {
        Ok(())
    }
}

/// Validate a directory entry name returned by a provider's `readdir`.
///
/// Rejects empty names, `.`, `..`, names containing `/` or NUL, and names
/// longer than [`NAME_MAX`]. The scaffold adds `.` and `..` itself.
pub fn validate_readdir_name(name: &[u8]) -> (r: Result<(), FsError>)
    ensures
        r == readdir_name_check(name@),
{
    if name.len() == 0 || is_dot(name) || is_dotdot(name) {
        return Err(eperm());
    }
    if contains_byte(name, SLASH) || contains_byte(name, 0) {
        return Err(einval());
    }
    if name.len() > NAME_MAX {
        return Err(enametoolong());
    }
    Ok(())
}

/// The verdict on one component of an absolute path.
pub open spec fn component_check(component: Seq<u8>) -> Result<(), FsError> {
    if component.len() == 0 {
        Err(FsError::Os(LINUX_EINVAL))
    } else {
        readdir_name_check(component)
    }
}

/// The verdict on a `/`-separated list of components: that on the first
/// component at fault.
pub open spec fn components_check(s: Seq<u8>) -> Result<(), FsError>
    decreases s.len(),
{
    match component_check(head(s)) {
        Err(e) => Err(e),
        Ok(_) => if has_tail(s) {
            components_check(tail(s))
        } else {
            Ok(())
        },
    }
}

/// The verdict on an absolute guest path.
pub open spec fn path_check(path: Seq<u8>) -> Result<(), FsError> {
    if path.len() == 0 || path[0] != SLASH {
        Err(FsError::Os(LINUX_EINVAL))
    } else if path.len() > PATH_MAX {
        Err(FsError::Os(LINUX_ENAMETOOLONG))
    } else if path.contains(0) {
        Err(FsError::Os(LINUX_EINVAL))
    } else if path.len() == 1 {
        Ok(())
    } else {
        components_check(path.skip(1))
    }
}

/// Validate an absolute guest path.
///
/// Rejects relative paths, NUL bytes, `.` and `..` components, empty
/// components, and paths or components beyond `PATH_MAX` and `NAME_MAX`.
pub fn validate_provider_path_bytes(bytes: &[u8]) -> (r: Result<(), FsError>)
    ensures
        r == path_check(bytes@),
{
    if bytes.len() == 0 || bytes[0] != SLASH {
        return Err(einval());
    }
    if bytes.len() > PATH_MAX {
        return Err(enametoolong());
    }
    if contains_byte(bytes, 0) {
        return Err(einval());
    }
    if bytes.len() == 1 {
        return Ok(());
    }
    let mut start: usize = 1;
    loop
        invariant
            1 <= start <= bytes.len(),
            bytes.len() <= PATH_MAX,
            components_check(bytes@.skip(1)) == components_check(bytes@.skip(start as int)),
            path_check(bytes@) == components_check(bytes@.skip(1)),
        decreases bytes.len() - start,
    {
        let end = component_end(bytes, start);
        let component = vstd::slice::slice_subrange(bytes, start, end);
        let ghost rest = bytes@.skip(start as int);
        assert(component@ =~= head(rest));
        if component.len() == 0 {
            return Err(einval());
        }
        match validate_readdir_name(component) {
            Err(e) => {
                return Err(e);
            },
            Ok(_) => {},
        }
        if end == bytes.len() {
            return Ok(());
        }
        assert(tail(rest) =~= bytes@.skip(end + 1));
        start = end + 1;
    }
}

/// Where the component that starts at `start` ends: at the next separator or
/// at the end.
fn component_end(bytes: &[u8], start: usize) -> (end: usize)
    requires
        start <= bytes.len(),
    ensures
        start <= end <= bytes.len(),
        end - start == head_len(bytes@.skip(start as int)),
        end < bytes.len() <==> has_tail(bytes@.skip(start as int)),
{
    let ghost rest = bytes@.skip(start as int);
    let mut i: usize = start;
    while i < bytes.len() && bytes[i] != SLASH
        invariant
            start <= i <= bytes.len(),
            rest == bytes@.skip(start as int),
            forall|j: int| 0 <= j < i - start ==> rest[j] != SLASH,
        decreases bytes.len() - i,
    {
        i += 1;
    }
    proof {
        lemma_head_len_is(rest, i - start);
        lemma_head_len(rest);
    }
    i
}

/// Whether a `/`-separated list of components has a `..` component.
pub open spec fn has_dotdot(s: Seq<u8>) -> bool
    decreases s.len(),
{
    head(s) == dotdot() || (has_tail(s) && has_dotdot(tail(s)))
}

/// The verdict on a symlink target.
pub open spec fn symlink_target_check(target: Seq<u8>) -> Result<(), FsError> {
    if target.len() == 0 {
        Err(FsError::Os(LINUX_EINVAL))
    } else if target.len() > MAX_SYMLINK_TARGET {
        Err(FsError::Os(LINUX_ENAMETOOLONG))
    } else if target.contains(0) {
        Err(FsError::Os(LINUX_EINVAL))
    } else if target[0] == SLASH || has_dotdot(target) {
        Err(FsError::Os(LINUX_EPERM))
    } else {
        Ok(())
    }
}

/// Validate a symlink target before passing it to or from a provider.
///
/// Rejects empty and over-long targets, NUL bytes, absolute targets, and `..`
/// components.
pub fn validate_symlink_target_bytes(bytes: &[u8]) -> (r: Result<(), FsError>)
    ensures
        r == symlink_target_check(bytes@),
{
    if bytes.len() == 0 {
        return Err(einval());
    }
    if bytes.len() > MAX_SYMLINK_TARGET {
        return Err(enametoolong());
    }
    if contains_byte(bytes, 0) {
        return Err(einval());
    }
    if bytes[0] == SLASH {
        return Err(eperm());
    }
    let mut start: usize = 0;
    assert(bytes@.skip(0) =~= bytes@);
    loop
        invariant
            start <= bytes.len(),
            bytes.len() <= MAX_SYMLINK_TARGET,
            has_dotdot(bytes@) == has_dotdot(bytes@.skip(start as int)),
            symlink_target_check(bytes@) == (if has_dotdot(bytes@) {
                Err::<(), FsError>(FsError::Os(LINUX_EPERM))
            } else {
                Ok(())
            }),
        decreases bytes.len() - start,
    {
        let end = component_end(bytes, start);
        let component = vstd::slice::slice_subrange(bytes, start, end);
        let ghost rest = bytes@.skip(start as int);
        assert(component@ =~= head(rest));
        if is_dotdot(component) {
            return Err(eperm());
        }
        if end == bytes.len() {
            return Ok(());
        }
        assert(tail(rest) =~= bytes@.skip(end + 1));
        start = end + 1;
    }
}

/// The verdict on an extended-attribute name.
pub open spec fn xattr_name_check(name: Seq<u8>) -> Result<(), FsError> {
    if name.len() == 0 || name.contains(0) || name.contains(SLASH) {
        Err(FsError::Os(LINUX_EINVAL))
    } else if name.len() > NAME_MAX {
        Err(FsError::Os(LINUX_ENAMETOOLONG))
    } else {
        Ok(())
    }
}

/// Validate an extended-attribute name before passing it to a provider.
///
/// Rejects empty names, NUL bytes, `/`, and names longer than [`NAME_MAX`].
pub fn validate_xattr_name_bytes(bytes: &[u8]) -> (r: Result<(), FsError>)
    ensures
        r == xattr_name_check(bytes@),
{
    if bytes.len() == 0 {
        return Err(einval());
    }
    if contains_byte(bytes, 0) || contains_byte(bytes, SLASH) {
        return Err(einval());
    }
    if bytes.len() > NAME_MAX {
        return Err(enametoolong());
    }
    Ok(())
}

} // verus!
