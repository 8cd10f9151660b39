use microsandbox_vfs::error::FsError;
use microsandbox_vfs::name_validation::{
    validate_memfs_name, validate_name, validate_provider_path_bytes, validate_readdir_name,
    validate_symlink_target_bytes, validate_xattr_name_bytes, PATH_MAX,
};
use microsandbox_vfs::platform::{
    einval, enametoolong, eperm, LINUX_EINVAL, LINUX_ENAMETOOLONG, LINUX_EPERM,
};

#[test]
fn validate_name_accepts_normal() {
    assert!(validate_name(b"hello.txt").is_ok());
    assert!(validate_name(b".").is_ok());
    assert!(validate_name(b".hidden").is_ok());
}

#[test]
fn validate_name_rejects_empty() {
    assert!(validate_name(b"").is_err());
}

#[test]
fn validate_name_rejects_dotdot() {
    assert!(validate_name(b"..").is_err());
}

#[test]
fn validate_name_rejects_slash() {
    assert!(validate_name(b"a/b").is_err());
}

#[test]
fn validate_name_allows_backslash() {
    assert!(validate_name(b"a\\b").is_ok());
}

#[test]
fn validate_symlink_target_rejects_empty() {
    assert!(validate_symlink_target_bytes(b"").is_err());
    assert!(validate_symlink_target_bytes(b"ok/target").is_ok());
}

#[test]
fn validate_provider_path_rejects_over_path_max() {
    // Each component is within NAME_MAX, so this fails on the total length.
    let mut path = Vec::new();
    for _ in 0..30 {
        path.push(b'/');
        path.extend(std::iter::repeat(b'a').take(200));
    }
    assert!(path.len() > PATH_MAX);
    assert!(validate_provider_path_bytes(&path).is_err());
    assert_eq!(
        validate_provider_path_bytes(&path),
        Err(FsError::Os(LINUX_ENAMETOOLONG))
    );
}

#[test]
fn name_verdicts_carry_their_errno() {
    assert_eq!(validate_name(b""), Err(einval()));
    assert_eq!(validate_name(b".."), Err(eperm()));
    assert_eq!(validate_name(b"a/b"), Err(eperm()));
    assert_eq!(validate_memfs_name(b"."), Err(FsError::Os(LINUX_EPERM)));
    assert_eq!(validate_memfs_name(&[b'a'; 256]), Err(enametoolong()));
    assert_eq!(validate_memfs_name(&[b'a'; 255]), Ok(()));
    assert_eq!(validate_readdir_name(b""), Err(FsError::Os(LINUX_EPERM)));
    assert_eq!(validate_readdir_name(b".."), Err(FsError::Os(LINUX_EPERM)));
    assert!(validate_readdir_name(b"a/b").is_err());
    assert!(validate_readdir_name(b"a\0b").is_err());
    assert_eq!(validate_readdir_name(b"plain"), Ok(()));
}

#[test]
fn path_verdicts_cover_every_component() {
    assert_eq!(validate_provider_path_bytes(b"/"), Ok(()));
    assert_eq!(validate_provider_path_bytes(b"/a/b.c/d"), Ok(()));
    assert_eq!(validate_provider_path_bytes(b""), Err(FsError::Os(LINUX_EINVAL)));
    assert_eq!(validate_provider_path_bytes(b"a/b"), Err(FsError::Os(LINUX_EINVAL)));
    assert!(validate_provider_path_bytes(b"/a//b").is_err());
    assert!(validate_provider_path_bytes(b"/a/").is_err());
    assert!(validate_provider_path_bytes(b"/a/../b").is_err());
    assert!(validate_provider_path_bytes(b"/a/./b").is_err());
    assert!(validate_provider_path_bytes(b"/a\0b").is_err());
}

#[test]
fn symlink_and_xattr_verdicts() {
    assert!(validate_symlink_target_bytes(b"../up").is_err());
    assert!(validate_symlink_target_bytes(b"a/../b").is_err());
    assert!(validate_symlink_target_bytes(b"..a/b").is_ok());
    assert!(validate_symlink_target_bytes(b"a\0b").is_err());
    assert_eq!(
        validate_symlink_target_bytes(&[b'a'; 4097]),
        Err(FsError::Os(LINUX_ENAMETOOLONG))
    );
    assert_eq!(validate_xattr_name_bytes(b"user.k"), Ok(()));
    assert_eq!(validate_xattr_name_bytes(b""), Err(FsError::Os(LINUX_EINVAL)));
    assert!(validate_xattr_name_bytes(b"a/b").is_err());
    assert!(validate_xattr_name_bytes(b"a\0b").is_err());
    assert!(validate_xattr_name_bytes(&[b'x'; 256]).is_err());
}
