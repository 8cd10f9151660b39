use microsandbox_vfs::error::{DataFault, FsError};
use microsandbox_vfs::platform::{
    dirent_type_from_mode, falls_back_to_openat, linux_errno_raw, linux_error, mode_file_type,
    openat2_available, provider_errno_to_wire, sanitize_linux_open_flags, HostError, HostErrorKind,
    HostOs, OpenFlags, DIRENT_DIR, DIRENT_LNK, DIRENT_REG, LINUX_E2BIG, LINUX_EACCES, LINUX_EAGAIN,
    LINUX_EBUSY, LINUX_EDEADLK, LINUX_EEXIST, LINUX_EINVAL, LINUX_EIO, LINUX_ENODATA, LINUX_ENOENT,
    LINUX_ENOSYS, LINUX_ENOTEMPTY, LINUX_EOPNOTSUPP, LINUX_ERANGE, LINUX_EXDEV, MODE_DIR, MODE_LNK,
    MODE_REG,
};

fn host(code: Option<i32>, kind: HostErrorKind) -> HostError {
    HostError { code, kind }
}

#[test]
fn darwin_codes_become_linux_codes() {
    assert_eq!(linux_errno_raw(2), LINUX_ENOENT);
    assert_eq!(linux_errno_raw(11), LINUX_EDEADLK);
    assert_eq!(linux_errno_raw(35), LINUX_EAGAIN);
    assert_eq!(linux_errno_raw(66), LINUX_ENOTEMPTY);
    assert_eq!(linux_errno_raw(93), LINUX_ENODATA);
    assert_eq!(linux_errno_raw(7), LINUX_E2BIG);
    assert_eq!(linux_errno_raw(34), LINUX_ERANGE);
    assert_eq!(linux_errno_raw(45), LINUX_EOPNOTSUPP);
    assert_eq!(linux_errno_raw(102), LINUX_EOPNOTSUPP);
    assert_eq!(linux_errno_raw(67), LINUX_EIO);
    assert_eq!(linux_errno_raw(107), LINUX_EIO);
    assert_eq!(linux_errno_raw(0), LINUX_EIO);
    assert_eq!(linux_errno_raw(-5), LINUX_EIO);
}

#[test]
fn host_errors_become_linux_errors() {
    let other = HostErrorKind::Other;
    assert_eq!(
        linux_error(HostOs::Linux, host(Some(39), other)),
        FsError::Os(39)
    );
    assert_eq!(
        linux_error(HostOs::Linux, host(Some(39), HostErrorKind::InvalidInput)),
        FsError::Os(39)
    );
    assert_eq!(linux_error(HostOs::Linux, host(None, other)), FsError::Other);
    for (kind, error) in [
        (HostErrorKind::InvalidInput, FsError::InvalidInput),
        (
            HostErrorKind::InvalidData,
            FsError::InvalidData(DataFault::Malformed),
        ),
        (HostErrorKind::UnexpectedEof, FsError::UnexpectedEof),
        (HostErrorKind::NotFound, FsError::Other),
    ] {
        assert_eq!(linux_error(HostOs::Linux, host(None, kind)), error);
    }
    assert_eq!(
        linux_error(HostOs::Macos, host(Some(66), other)),
        FsError::Os(LINUX_ENOTEMPTY)
    );
    assert_eq!(
        linux_error(HostOs::Macos, host(None, other)),
        FsError::Os(LINUX_EIO)
    );
    for (code, errno) in [
        (2, LINUX_ENOENT),
        (3, LINUX_ENOENT),
        (5, LINUX_EACCES),
        (17, LINUX_EXDEV),
        (32, LINUX_EBUSY),
        (80, LINUX_EEXIST),
        (123, LINUX_EINVAL),
        (145, LINUX_ENOTEMPTY),
        (183, LINUX_EEXIST),
        (1314, LINUX_EACCES),
    ] {
        assert_eq!(
            linux_error(HostOs::Windows, host(Some(code), other)),
            FsError::Os(errno)
        );
    }
    for (kind, errno) in [
        (HostErrorKind::NotFound, LINUX_ENOENT),
        (HostErrorKind::PermissionDenied, LINUX_EACCES),
        (HostErrorKind::AlreadyExists, LINUX_EEXIST),
        (HostErrorKind::InvalidInput, LINUX_EINVAL),
        (HostErrorKind::Unsupported, LINUX_EOPNOTSUPP),
        (HostErrorKind::InvalidData, LINUX_EIO),
        (HostErrorKind::UnexpectedEof, LINUX_EIO),
        (HostErrorKind::Other, LINUX_EIO),
    ] {
        assert_eq!(
            linux_error(HostOs::Windows, host(Some(9999), kind)),
            FsError::Os(errno)
        );
        assert_eq!(
            linux_error(HostOs::Windows, host(None, kind)),
            FsError::Os(errno)
        );
    }
}

#[test]
fn provider_errors_go_over_the_wire_verbatim() {
    assert_eq!(provider_errno_to_wire(FsError::Os(39)), 39);
    assert_eq!(provider_errno_to_wire(FsError::Os(66)), 66);
    assert_eq!(provider_errno_to_wire(FsError::Other), LINUX_EIO);
    assert_eq!(
        provider_errno_to_wire(FsError::InvalidData(DataFault::Malformed)),
        LINUX_EIO
    );
}

#[test]
fn mode_helpers() {
    assert_eq!(mode_file_type(0o100644), MODE_REG);
    assert_eq!(dirent_type_from_mode(MODE_DIR), DIRENT_DIR);
    assert_eq!(dirent_type_from_mode(MODE_LNK), DIRENT_LNK);
    assert_eq!(dirent_type_from_mode(0o170000), DIRENT_REG);
}

#[test]
fn unknown_open_flags_are_dropped() {
    let known = OpenFlags {
        accmode: libc::O_ACCMODE,
        append: libc::O_APPEND,
        creat: libc::O_CREAT,
        excl: libc::O_EXCL,
        noctty: libc::O_NOCTTY,
        trunc: libc::O_TRUNC,
        nonblock: libc::O_NONBLOCK,
        dsync: libc::O_DSYNC,
        sync: libc::O_SYNC,
        asynchronous: libc::O_ASYNC,
        direct: libc::O_DIRECT,
        largefile: libc::O_LARGEFILE,
        directory: libc::O_DIRECTORY,
        nofollow: libc::O_NOFOLLOW,
        noatime: libc::O_NOATIME,
        cloexec: libc::O_CLOEXEC,
        path: libc::O_PATH,
        tmpfile: libc::O_TMPFILE,
    };
    let wanted = libc::O_RDWR | libc::O_CREAT | libc::O_EXCL | libc::O_NOFOLLOW;
    let unknown = 0x4000_0000;
    assert_eq!(sanitize_linux_open_flags(wanted, known), wanted);
    assert_eq!(sanitize_linux_open_flags(wanted | unknown, known), wanted);
    assert_eq!(sanitize_linux_open_flags(unknown, known), 0);
    assert_eq!(
        sanitize_linux_open_flags(-1, known),
        libc::O_ACCMODE | known.mask()
    );
}

#[test]
fn plain_opens_follow_an_unknown_system_call() {
    assert!(openat2_available(None));
    assert!(openat2_available(Some(LINUX_EINVAL)));
    assert!(!openat2_available(Some(LINUX_ENOSYS)));
    assert!(falls_back_to_openat(false, None));
    assert!(!falls_back_to_openat(true, None));
    assert!(!falls_back_to_openat(true, Some(LINUX_ENOENT)));
    assert!(falls_back_to_openat(true, Some(LINUX_ENOSYS)));
}
