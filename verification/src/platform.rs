//! Linux errno, mode and directory-entry values, and the translations between a
//! host's error codes and the Linux codes the guest speaks.
//!
//! The guest is always Linux, so every number here is a protocol value rather
//! than whatever the host's C library happens to use.

use crate::abi::{Stat64, Statx, SETATTR_ATIME, SETATTR_ATIME_NOW, SETATTR_MTIME, SETATTR_MTIME_NOW};
use crate::error::{DataFault, FsError};
use vstd::prelude::*;

verus! {

pub const LINUX_EPERM: i32 = 1;

pub const LINUX_ENOENT: i32 = 2;

pub const LINUX_ESRCH: i32 = 3;

pub const LINUX_EINTR: i32 = 4;

pub const LINUX_EIO: i32 = 5;

pub const LINUX_ENXIO: i32 = 6;

pub const LINUX_E2BIG: i32 = 7;

pub const LINUX_ENOEXEC: i32 = 8;

pub const LINUX_EBADF: i32 = 9;

pub const LINUX_ECHILD: i32 = 10;

pub const LINUX_EAGAIN: i32 = 11;

pub const LINUX_ENOMEM: i32 = 12;

pub const LINUX_EACCES: i32 = 13;

pub const LINUX_EFAULT: i32 = 14;

pub const LINUX_ENOTBLK: i32 = 15;

pub const LINUX_EBUSY: i32 = 16;

pub const LINUX_EEXIST: i32 = 17;

pub const LINUX_EXDEV: i32 = 18;

pub const LINUX_ENODEV: i32 = 19;

pub const LINUX_ENOTDIR: i32 = 20;

pub const LINUX_EISDIR: i32 = 21;

pub const LINUX_EINVAL: i32 = 22;

pub const LINUX_ENFILE: i32 = 23;

pub const LINUX_EMFILE: i32 = 24;

pub const LINUX_ENOTTY: i32 = 25;

pub const LINUX_ETXTBSY: i32 = 26;

pub const LINUX_EFBIG: i32 = 27;

pub const LINUX_ENOSPC: i32 = 28;

pub const LINUX_ESPIPE: i32 = 29;

pub const LINUX_EROFS: i32 = 30;

pub const LINUX_EMLINK: i32 = 31;

pub const LINUX_EPIPE: i32 = 32;

pub const LINUX_EDOM: i32 = 33;

pub const LINUX_ERANGE: i32 = 34;

pub const LINUX_EDEADLK: i32 = 35;

pub const LINUX_ENAMETOOLONG: i32 = 36;

pub const LINUX_ENOLCK: i32 = 37;

pub const LINUX_ENOSYS: i32 = 38;

pub const LINUX_ENOTEMPTY: i32 = 39;

pub const LINUX_ELOOP: i32 = 40;

pub const LINUX_ENOMSG: i32 = 42;

pub const LINUX_EIDRM: i32 = 43;

pub const LINUX_ENOSTR: i32 = 60;

pub const LINUX_ENODATA: i32 = 61;

pub const LINUX_ETIME: i32 = 62;

pub const LINUX_ENOSR: i32 = 63;

pub const LINUX_EREMOTE: i32 = 66;

pub const LINUX_ENOLINK: i32 = 67;

pub const LINUX_EPROTO: i32 = 71;

pub const LINUX_EMULTIHOP: i32 = 72;

pub const LINUX_EBADMSG: i32 = 74;

pub const LINUX_EOVERFLOW: i32 = 75;

pub const LINUX_EILSEQ: i32 = 84;

pub const LINUX_EUSERS: i32 = 87;

pub const LINUX_ENOTSOCK: i32 = 88;

pub const LINUX_EDESTADDRREQ: i32 = 89;

pub const LINUX_EMSGSIZE: i32 = 90;

pub const LINUX_EPROTOTYPE: i32 = 91;

pub const LINUX_ENOPROTOOPT: i32 = 92;

pub const LINUX_EPROTONOSUPPORT: i32 = 93;

pub const LINUX_ESOCKTNOSUPPORT: i32 = 94;

pub const LINUX_EOPNOTSUPP: i32 = 95;

pub const LINUX_EPFNOSUPPORT: i32 = 96;

pub const LINUX_EAFNOSUPPORT: i32 = 97;

pub const LINUX_EADDRINUSE: i32 = 98;

pub const LINUX_EADDRNOTAVAIL: i32 = 99;

pub const LINUX_ENETDOWN: i32 = 100;

pub const LINUX_ENETUNREACH: i32 = 101;

pub const LINUX_ENETRESET: i32 = 102;

pub const LINUX_ECONNABORTED: i32 = 103;

pub const LINUX_ECONNRESET: i32 = 104;

pub const LINUX_ENOBUFS: i32 = 105;

pub const LINUX_EISCONN: i32 = 106;

pub const LINUX_ENOTCONN: i32 = 107;

pub const LINUX_ESHUTDOWN: i32 = 108;

pub const LINUX_ETOOMANYREFS: i32 = 109;

pub const LINUX_ETIMEDOUT: i32 = 110;

pub const LINUX_ECONNREFUSED: i32 = 111;

pub const LINUX_EHOSTDOWN: i32 = 112;

pub const LINUX_EHOSTUNREACH: i32 = 113;

pub const LINUX_EALREADY: i32 = 114;

pub const LINUX_EINPROGRESS: i32 = 115;

pub const LINUX_ESTALE: i32 = 116;

pub const LINUX_EDQUOT: i32 = 122;

pub const LINUX_ECANCELED: i32 = 125;

pub const LINUX_EOWNERDEAD: i32 = 130;

pub const LINUX_ENOTRECOVERABLE: i32 = 131;

pub const MODE_TYPE_MASK: u32 = 0o170000;

pub const MODE_REG: u32 = 0o100000;

pub const MODE_DIR: u32 = 0o040000;

pub const MODE_LNK: u32 = 0o120000;

pub const MODE_CHR: u32 = 0o020000;

pub const MODE_BLK: u32 = 0o060000;

pub const MODE_FIFO: u32 = 0o010000;

pub const MODE_SOCK: u32 = 0o140000;

pub const MODE_SETUID: u32 = 0o4000;

pub const MODE_SETGID: u32 = 0o2000;

pub const DIRENT_REG: u32 = 8;

pub const DIRENT_DIR: u32 = 4;

pub const DIRENT_LNK: u32 = 10;

pub const DIRENT_CHR: u32 = 2;

pub const DIRENT_BLK: u32 = 6;

pub const DIRENT_FIFO: u32 = 1;

pub const DIRENT_SOCK: u32 = 12;

pub const ACCESS_F_OK: u32 = 0;

pub const ACCESS_R_OK: u32 = 4;

pub const ACCESS_W_OK: u32 = 2;

pub const ACCESS_X_OK: u32 = 1;

/// The operating system whose error codes are being translated.
#[derive(Debug, Clone, Copy, PartialEq, Eq, Structural)]
pub enum HostOs {
    Linux,
    Macos,
    Windows,
}

/// The classes of host error that matter when an error carries no known code.
#[derive(Debug, Clone, Copy, PartialEq, Eq, Structural)]
pub enum HostErrorKind {
    NotFound,
    PermissionDenied,
    AlreadyExists,
    InvalidInput,
    Unsupported,
    InvalidData,
    UnexpectedEof,
    Other,
}

/// A host error: its raw code, if it has one, and its class.
#[derive(Debug, Clone, Copy, PartialEq, Eq, Structural)]
pub struct HostError {
    pub code: Option<i32>,
    pub kind: HostErrorKind,
}

/// The Linux errno for a macOS errno.
///
/// The first thirty-four codes agree between the two systems except `EDEADLK`,
/// and `ENOTSUP` and `EOPNOTSUPP`, two codes on macOS, are one on Linux. Codes
/// without a counterpart are `EIO`.
pub open spec fn linux_errno_of_darwin(errno: i32) -> i32 {
    if 1 <= errno <= 34 && errno != 11 {
        errno
    } else {
        match errno {
            11 => LINUX_EDEADLK,
            35 => LINUX_EAGAIN,
            36 => LINUX_EINPROGRESS,
            37 => LINUX_EALREADY,
            38 => LINUX_ENOTSOCK,
            39 => LINUX_EDESTADDRREQ,
            40 => LINUX_EMSGSIZE,
            41 => LINUX_EPROTOTYPE,
            42 => LINUX_ENOPROTOOPT,
            43 => LINUX_EPROTONOSUPPORT,
            44 => LINUX_ESOCKTNOSUPPORT,
            45 => LINUX_EOPNOTSUPP,
            46 => LINUX_EPFNOSUPPORT,
            47 => LINUX_EAFNOSUPPORT,
            48 => LINUX_EADDRINUSE,
            49 => LINUX_EADDRNOTAVAIL,
            50 => LINUX_ENETDOWN,
            51 => LINUX_ENETUNREACH,
            52 => LINUX_ENETRESET,
            53 => LINUX_ECONNABORTED,
            54 => LINUX_ECONNRESET,
            55 => LINUX_ENOBUFS,
            56 => LINUX_EISCONN,
            57 => LINUX_ENOTCONN,
            58 => LINUX_ESHUTDOWN,
            59 => LINUX_ETOOMANYREFS,
            60 => LINUX_ETIMEDOUT,
            61 => LINUX_ECONNREFUSED,
            62 => LINUX_ELOOP,
            63 => LINUX_ENAMETOOLONG,
            64 => LINUX_EHOSTDOWN,
            65 => LINUX_EHOSTUNREACH,
            66 => LINUX_ENOTEMPTY,
            68 => LINUX_EUSERS,
            69 => LINUX_EDQUOT,
            70 => LINUX_ESTALE,
            71 => LINUX_EREMOTE,
            77 => LINUX_ENOLCK,
            78 => LINUX_ENOSYS,
            84 => LINUX_EOVERFLOW,
            89 => LINUX_ECANCELED,
            90 => LINUX_EIDRM,
            91 => LINUX_ENOMSG,
            92 => LINUX_EILSEQ,
            93 => LINUX_ENODATA,
            94 => LINUX_EBADMSG,
            95 => LINUX_EMULTIHOP,
            96 => LINUX_ENODATA,
            97 => LINUX_ENOLINK,
            98 => LINUX_ENOSR,
            99 => LINUX_ENOSTR,
            100 => LINUX_EPROTO,
            101 => LINUX_ETIME,
            102 => LINUX_EOPNOTSUPP,
            104 => LINUX_ENOTRECOVERABLE,
            105 => LINUX_EOWNERDEAD,
            _ => LINUX_EIO,
        }
    }
}

/// Map a macOS errno to its Linux equivalent.
pub fn linux_errno_raw(errno: i32) -> (r: i32)
    ensures
        r == linux_errno_of_darwin(errno),
{
    match errno {
        1 => LINUX_EPERM,
        2 => LINUX_ENOENT,
        3 => LINUX_ESRCH,
        4 => LINUX_EINTR,
        5 => LINUX_EIO,
        6 => LINUX_ENXIO,
        7 => LINUX_E2BIG,
        8 => LINUX_ENOEXEC,
        9 => LINUX_EBADF,
        10 => LINUX_ECHILD,
        11 => LINUX_EDEADLK,
        12 => LINUX_ENOMEM,
        13 => LINUX_EACCES,
        14 => LINUX_EFAULT,
        15 => LINUX_ENOTBLK,
        16 => LINUX_EBUSY,
        17 => LINUX_EEXIST,
        18 => LINUX_EXDEV,
        19 => LINUX_ENODEV,
        20 => LINUX_ENOTDIR,
        21 => LINUX_EISDIR,
        22 => LINUX_EINVAL,
        23 => LINUX_ENFILE,
        24 => LINUX_EMFILE,
        25 => LINUX_ENOTTY,
        26 => LINUX_ETXTBSY,
        27 => LINUX_EFBIG,
        28 => LINUX_ENOSPC,
        29 => LINUX_ESPIPE,
        30 => LINUX_EROFS,
        31 => LINUX_EMLINK,
        32 => LINUX_EPIPE,
        33 => LINUX_EDOM,
        34 => LINUX_ERANGE,
        35 => LINUX_EAGAIN,
        36 => LINUX_EINPROGRESS,
        37 => LINUX_EALREADY,
        38 => LINUX_ENOTSOCK,
        39 => LINUX_EDESTADDRREQ,
        40 => LINUX_EMSGSIZE,
        41 => LINUX_EPROTOTYPE,
        42 => LINUX_ENOPROTOOPT,
        43 => LINUX_EPROTONOSUPPORT,
        44 => LINUX_ESOCKTNOSUPPORT,
        45 => LINUX_EOPNOTSUPP,
        46 => LINUX_EPFNOSUPPORT,
        47 => LINUX_EAFNOSUPPORT,
        48 => LINUX_EADDRINUSE,
        49 => LINUX_EADDRNOTAVAIL,
        50 => LINUX_ENETDOWN,
        51 => LINUX_ENETUNREACH,
        52 => LINUX_ENETRESET,
        53 => LINUX_ECONNABORTED,
        54 => LINUX_ECONNRESET,
        55 => LINUX_ENOBUFS,
        56 => LINUX_EISCONN,
        57 => LINUX_ENOTCONN,
        58 => LINUX_ESHUTDOWN,
        59 => LINUX_ETOOMANYREFS,
        60 => LINUX_ETIMEDOUT,
        61 => LINUX_ECONNREFUSED,
        62 => LINUX_ELOOP,
        63 => LINUX_ENAMETOOLONG,
        64 => LINUX_EHOSTDOWN,
        65 => LINUX_EHOSTUNREACH,
        66 => LINUX_ENOTEMPTY,
        68 => LINUX_EUSERS,
        69 => LINUX_EDQUOT,
        70 => LINUX_ESTALE,
        71 => LINUX_EREMOTE,
        77 => LINUX_ENOLCK,
        78 => LINUX_ENOSYS,
        84 => LINUX_EOVERFLOW,
        89 => LINUX_ECANCELED,
        90 => LINUX_EIDRM,
        91 => LINUX_ENOMSG,
        92 => LINUX_EILSEQ,
        93 => LINUX_ENODATA,
        94 => LINUX_EBADMSG,
        95 => LINUX_EMULTIHOP,
        96 => LINUX_ENODATA,
        97 => LINUX_ENOLINK,
        98 => LINUX_ENOSR,
        99 => LINUX_ENOSTR,
        100 => LINUX_EPROTO,
        101 => LINUX_ETIME,
        102 => LINUX_EOPNOTSUPP,
        104 => LINUX_ENOTRECOVERABLE,
        105 => LINUX_EOWNERDEAD,
        _ => LINUX_EIO,
    }
}

/// `ERROR_FILE_NOT_FOUND`.
pub const WIN32_FILE_NOT_FOUND: i32 = 2;

/// `ERROR_PATH_NOT_FOUND`.
pub const WIN32_PATH_NOT_FOUND: i32 = 3;

/// `ERROR_ACCESS_DENIED`.
pub const WIN32_ACCESS_DENIED: i32 = 5;

/// `ERROR_NOT_SAME_DEVICE`.
pub const WIN32_NOT_SAME_DEVICE: i32 = 17;

/// `ERROR_SHARING_VIOLATION`.
pub const WIN32_SHARING_VIOLATION: i32 = 32;

/// `ERROR_FILE_EXISTS`.
pub const WIN32_FILE_EXISTS: i32 = 80;

/// `ERROR_INVALID_NAME`.
pub const WIN32_INVALID_NAME: i32 = 123;

/// `ERROR_DIR_NOT_EMPTY`.
pub const WIN32_DIR_NOT_EMPTY: i32 = 145;

/// `ERROR_ALREADY_EXISTS`.
pub const WIN32_ALREADY_EXISTS: i32 = 183;

/// `ERROR_PRIVILEGE_NOT_HELD`.
pub const WIN32_PRIVILEGE_NOT_HELD: i32 = 1314;

/// The Linux errno of a Win32 code, if the code is one the backends encounter.
pub open spec fn linux_errno_of_win32(code: i32) -> Option<i32> {
    if code == WIN32_FILE_NOT_FOUND || code == WIN32_PATH_NOT_FOUND {
        Some(LINUX_ENOENT)
    } else if code == WIN32_ACCESS_DENIED || code == WIN32_PRIVILEGE_NOT_HELD {
        Some(LINUX_EACCES)
    } else if code == WIN32_ALREADY_EXISTS || code == WIN32_FILE_EXISTS {
        Some(LINUX_EEXIST)
    } else if code == WIN32_DIR_NOT_EMPTY {
        Some(LINUX_ENOTEMPTY)
    } else if code == WIN32_SHARING_VIOLATION {
        Some(LINUX_EBUSY)
    } else if code == WIN32_INVALID_NAME {
        Some(LINUX_EINVAL)
    } else if code == WIN32_NOT_SAME_DEVICE {
        Some(LINUX_EXDEV)
    } else {
        None
    }
}

/// The Linux errno standing for a class of host error.
pub open spec fn linux_errno_of_kind(kind: HostErrorKind) -> i32 {
    match kind {
        HostErrorKind::NotFound => LINUX_ENOENT,
        HostErrorKind::PermissionDenied => LINUX_EACCES,
        HostErrorKind::AlreadyExists => LINUX_EEXIST,
        HostErrorKind::InvalidInput => LINUX_EINVAL,
        HostErrorKind::Unsupported => LINUX_EOPNOTSUPP,
        HostErrorKind::InvalidData => LINUX_EIO,
        HostErrorKind::UnexpectedEof => LINUX_EIO,
        HostErrorKind::Other => LINUX_EIO,
    }
}

/// The error of a class of host error that has no code.
pub open spec fn codeless_error(kind: HostErrorKind) -> FsError {
    match kind {
        HostErrorKind::InvalidInput => FsError::InvalidInput,
        HostErrorKind::InvalidData => FsError::InvalidData(DataFault::Malformed),
        HostErrorKind::UnexpectedEof => FsError::UnexpectedEof,
        _ => FsError::Other,
    }
}

/// What a host error is to the guest.
pub open spec fn linux_error_spec(host: HostOs, error: HostError) -> FsError {
    match host {
        HostOs::Linux => match error.code {
            Some(code) => FsError::Os(code),
            None => codeless_error(error.kind),
        },
        HostOs::Macos => match error.code {
            Some(code) => FsError::Os(linux_errno_of_darwin(code)),
            None => FsError::Os(LINUX_EIO),
        },
        HostOs::Windows => match error.code {
            Some(code) => match linux_errno_of_win32(code) {
                Some(errno) => FsError::Os(errno),
                None => FsError::Os(linux_errno_of_kind(error.kind)),
            },
            None => FsError::Os(linux_errno_of_kind(error.kind)),
        },
    }
}

/// The errno for a class of host error.
fn kind_errno(kind: HostErrorKind) -> (r: i32)
    ensures
        r == linux_errno_of_kind(kind),
{
    match kind {
        HostErrorKind::NotFound => LINUX_ENOENT,
        HostErrorKind::PermissionDenied => LINUX_EACCES,
        HostErrorKind::AlreadyExists => LINUX_EEXIST,
        HostErrorKind::InvalidInput => LINUX_EINVAL,
        HostErrorKind::Unsupported => LINUX_EOPNOTSUPP,
        HostErrorKind::InvalidData => LINUX_EIO,
        HostErrorKind::UnexpectedEof => LINUX_EIO,
        HostErrorKind::Other => LINUX_EIO,
    }
}

/// Translate a host error to the Linux error the guest expects.
///
/// On Linux, codes pass through, and an error without a code keeps its class as
/// far as [`FsError`] tells classes apart. macOS codes go through
/// [`linux_errno_raw`], a missing code counting as `EIO`. Windows codes are Win32
/// codes: the known ones are mapped, the rest fall back to the class of the error.
pub fn linux_error(host: HostOs, error: HostError) -> (r: FsError)
    ensures
        r == linux_error_spec(host, error),
{
    match host {
        HostOs::Linux => match error.code {
            Some(code) => FsError::Os(code),
            None => match error.kind {
                HostErrorKind::InvalidInput => FsError::InvalidInput,
                HostErrorKind::InvalidData => FsError::InvalidData(DataFault::Malformed),
                HostErrorKind::UnexpectedEof => FsError::UnexpectedEof,
                _ => FsError::Other,
            },
        },
        HostOs::Macos => match error.code {
            Some(code) => FsError::Os(linux_errno_raw(code)),
            None => FsError::Os(linux_errno_raw(LINUX_EIO)),
        },
        HostOs::Windows => {
            let errno: i32 = match error.code {
                Some(code) => {
                    if code == WIN32_FILE_NOT_FOUND || code == WIN32_PATH_NOT_FOUND {
                        LINUX_ENOENT
                    } else if code == WIN32_ACCESS_DENIED || code == WIN32_PRIVILEGE_NOT_HELD {
                        LINUX_EACCES
                    } else if code == WIN32_ALREADY_EXISTS || code == WIN32_FILE_EXISTS {
                        LINUX_EEXIST
                    } else if code == WIN32_DIR_NOT_EMPTY {
                        LINUX_ENOTEMPTY
                    } else if code == WIN32_SHARING_VIOLATION {
                        LINUX_EBUSY
                    } else if code == WIN32_INVALID_NAME {
                        LINUX_EINVAL
                    } else if code == WIN32_NOT_SAME_DEVICE {
                        LINUX_EXDEV
                    } else {
                        kind_errno(error.kind)
                    }
                },
                None => kind_errno(error.kind),
            };
            FsError::Os(errno)
        },
    }
}

/// A Linux `EIO` error.
pub fn eio() -> (r: FsError)
    ensures
        r == FsError::Os(LINUX_EIO),
{
    FsError::Os(LINUX_EIO)
}

/// A Linux `EBADF` error.
pub fn ebadf() -> (r: FsError)
    ensures
        r == FsError::Os(LINUX_EBADF),
{
    FsError::Os(LINUX_EBADF)
}

/// A Linux `EINVAL` error.
pub fn einval() -> (r: FsError)
    ensures
        r == FsError::Os(LINUX_EINVAL),
{
    FsError::Os(LINUX_EINVAL)
}

/// A Linux `EACCES` error.
pub fn eacces() -> (r: FsError)
    ensures
        r == FsError::Os(LINUX_EACCES),
{
    FsError::Os(LINUX_EACCES)
}

/// A Linux `EPERM` error.
pub fn eperm() -> (r: FsError)
    ensures
        r == FsError::Os(LINUX_EPERM),
{
    FsError::Os(LINUX_EPERM)
}

/// A Linux `EROFS` error.
pub fn erofs() -> (r: FsError)
    ensures
        r == FsError::Os(LINUX_EROFS),
{
    FsError::Os(LINUX_EROFS)
}

/// A Linux `ENOSYS` error.
pub fn enosys() -> (r: FsError)
    ensures
        r == FsError::Os(LINUX_ENOSYS),
{
    FsError::Os(LINUX_ENOSYS)
}

/// A Linux `ENOENT` error.
pub fn enoent() -> (r: FsError)
    ensures
        r == FsError::Os(LINUX_ENOENT),
{
    FsError::Os(LINUX_ENOENT)
}

/// A Linux `ENODATA` error.
pub fn enodata() -> (r: FsError)
    ensures
        r == FsError::Os(LINUX_ENODATA),
{
    FsError::Os(LINUX_ENODATA)
}

/// A Linux `EISDIR` error.
pub fn eisdir() -> (r: FsError)
    ensures
        r == FsError::Os(LINUX_EISDIR),
{
    FsError::Os(LINUX_EISDIR)
}

/// A Linux `ENOTDIR` error.
pub fn enotdir() -> (r: FsError)
    ensures
        r == FsError::Os(LINUX_ENOTDIR),
{
    FsError::Os(LINUX_ENOTDIR)
}

/// A Linux `ENOTEMPTY` error.
pub fn enotempty() -> (r: FsError)
    ensures
        r == FsError::Os(LINUX_ENOTEMPTY),
{
    FsError::Os(LINUX_ENOTEMPTY)
}

/// A Linux `ELOOP` error.
pub fn eloop() -> (r: FsError)
    ensures
        r == FsError::Os(LINUX_ELOOP),
{
    FsError::Os(LINUX_ELOOP)
}

/// A Linux `ENAMETOOLONG` error.
pub fn enametoolong() -> (r: FsError)
    ensures
        r == FsError::Os(LINUX_ENAMETOOLONG),
{
    FsError::Os(LINUX_ENAMETOOLONG)
}

/// A Linux `EEXIST` error.
pub fn eexist() -> (r: FsError)
    ensures
        r == FsError::Os(LINUX_EEXIST),
{
    FsError::Os(LINUX_EEXIST)
}

/// A Linux `ENOSPC` error.
pub fn enospc() -> (r: FsError)
    ensures
        r == FsError::Os(LINUX_ENOSPC),
{
    FsError::Os(LINUX_ENOSPC)
}

/// A Linux `EFBIG` error.
pub fn efbig() -> (r: FsError)
    ensures
        r == FsError::Os(LINUX_EFBIG),
{
    FsError::Os(LINUX_EFBIG)
}

/// A Linux `EOPNOTSUPP` error.
pub fn eopnotsupp() -> (r: FsError)
    ensures
        r == FsError::Os(LINUX_EOPNOTSUPP),
{
    FsError::Os(LINUX_EOPNOTSUPP)
}

/// A Linux `ENODEV` error.
pub fn enodev() -> (r: FsError)
    ensures
        r == FsError::Os(LINUX_ENODEV),
{
    FsError::Os(LINUX_ENODEV)
}

/// A Linux `ENXIO` error.
pub fn enxio() -> (r: FsError)
    ensures
        r == FsError::Os(LINUX_ENXIO),
{
    FsError::Os(LINUX_ENXIO)
}

/// A Linux `ERANGE` error.
pub fn erange() -> (r: FsError)
    ensures
        r == FsError::Os(LINUX_ERANGE),
{
    FsError::Os(LINUX_ERANGE)
}

/// A Linux `EAGAIN` error.
pub fn eagain() -> (r: FsError)
    ensures
        r == FsError::Os(LINUX_EAGAIN),
{
    FsError::Os(LINUX_EAGAIN)
}

/// A Linux `ESTALE` error.
pub fn estale() -> (r: FsError)
    ensures
        r == FsError::Os(LINUX_ESTALE),
{
    FsError::Os(LINUX_ESTALE)
}

/// Map a provider error to the Linux errno sent on the wire.
///
/// Providers report Linux errnos, so the code is forwarded verbatim on every
/// host; an error without a code is `EIO`. There is no value-based translation:
/// the Linux and BSD numberings overlap.
pub open spec fn wire_errno(error: FsError) -> i32 {
    match error.raw_os_error() {
        Some(errno) => errno,
        None => LINUX_EIO,
    }
}

/// Map a provider error to the Linux errno sent on the wire; see [`wire_errno`].
pub fn provider_errno_to_wire(error: FsError) -> (r: i32)
    ensures
        r == wire_errno(error),
{
    match error.raw_os_error() {
        Some(errno) => errno,
        None => LINUX_EIO,
    }
}

/// Extract the file type bits from a mode value.
pub fn mode_file_type(mode: u32) -> (r: u32)
    ensures
        r == mode & MODE_TYPE_MASK,
{
    mode & MODE_TYPE_MASK
}

/// The directory-entry type of a file type bit pattern; unknown patterns count
/// as regular files.
pub open spec fn dirent_type_of(file_type: u32) -> u32 {
    if file_type == MODE_LNK {
        DIRENT_LNK
    } else if file_type == MODE_DIR {
        DIRENT_DIR
    } else if file_type == MODE_CHR {
        DIRENT_CHR
    } else if file_type == MODE_BLK {
        DIRENT_BLK
    } else if file_type == MODE_FIFO {
        DIRENT_FIFO
    } else if file_type == MODE_SOCK {
        DIRENT_SOCK
    } else {
        DIRENT_REG
    }
}

/// Convert a file type bit pattern to a directory-entry type value.
pub fn dirent_type_from_mode(file_type: u32) -> (r: u32)
    ensures
        r == dirent_type_of(file_type),
{
    match file_type {
        MODE_LNK => DIRENT_LNK,
        MODE_DIR => DIRENT_DIR,
        MODE_CHR => DIRENT_CHR,
        MODE_BLK => DIRENT_BLK,
        MODE_FIFO => DIRENT_FIFO,
        MODE_SOCK => DIRENT_SOCK,
        _ => DIRENT_REG,
    }
}

/// The inode number of an attribute record.
pub fn stat_ino(st: &Stat64) -> (r: u64)
    ensures
        r == st.st_ino,
{
    st.st_ino
}

/// The device number of an attribute record.
pub fn stat_dev(st: &Stat64) -> (r: u64)
    ensures
        r == st.st_dev,
{
    st.st_dev
}

/// A device number composed of `major` and `minor` the way glibc does it: the
/// low twelve bits of the major number stand above the low eight bits of the
/// minor one, and the high bits of both follow.
pub open spec fn device_number(major: u32, minor: u32) -> u64 {
    ((major as u64 & 0xfffff000u64) << 32) | ((major as u64 & 0x00000fffu64) << 8)
        | ((minor as u64 & 0xffffff00u64) << 12) | (minor as u64 & 0x000000ffu64)
}

/// The major number of a composed device number.
pub open spec fn device_major(dev: u64) -> u64 {
    ((dev >> 32) & 0xfffff000u64) | ((dev >> 8) & 0x00000fffu64)
}

/// The minor number of a composed device number.
pub open spec fn device_minor(dev: u64) -> u64 {
    ((dev >> 12) & 0xffffff00u64) | (dev & 0x000000ffu64)
}

/// A device number holds both of its parts.
pub proof fn device_number_keeps_its_parts(major: u32, minor: u32)
    ensures
        device_major(device_number(major, minor)) == major as u64,
        device_minor(device_number(major, minor)) == minor as u64,
{
    let hi = major as u64;
    let lo = minor as u64;
    let dev = device_number(major, minor);
    assert(((dev >> 32) & 0xfffff000u64) | ((dev >> 8) & 0x00000fffu64) == hi) by (bit_vector)
        requires
            hi <= 0xffff_ffff,
            lo <= 0xffff_ffff,
            dev == ((hi & 0xfffff000u64) << 32) | ((hi & 0x00000fffu64) << 8) | ((lo
                & 0xffffff00u64) << 12) | (lo & 0x000000ffu64),
    ;
    assert(((dev >> 12) & 0xffffff00u64) | (dev & 0x000000ffu64) == lo) by (bit_vector)
        requires
            hi <= 0xffff_ffff,
            lo <= 0xffff_ffff,
            dev == ((hi & 0xfffff000u64) << 32) | ((hi & 0x00000fffu64) << 8) | ((lo
                & 0xffffff00u64) << 12) | (lo & 0x000000ffu64),
    ;
}

/// Compose a device number from major and minor numbers.
pub fn makedev(major: u32, minor: u32) -> (r: u64)
    ensures
        r == device_number(major, minor),
{
    ((major as u64 & 0xfffff000u64) << 32) | ((major as u64 & 0x00000fffu64) << 8) | ((minor as u64
        & 0xffffff00u64) << 12) | (minor as u64 & 0x000000ffu64)
}

/// Convert a `statx` record to a `stat64` record.
pub fn statx_to_stat64(stx: &Statx) -> (r: Stat64)
    ensures
        r == (Stat64 {
            st_dev: device_number(stx.dev_major, stx.dev_minor),
            st_ino: stx.ino,
            st_nlink: stx.nlink as u64,
            st_mode: stx.mode as u32,
            st_uid: stx.uid,
            st_gid: stx.gid,
            st_rdev: device_number(stx.rdev_major, stx.rdev_minor),
            st_size: stx.size as i64,
            st_blksize: stx.blksize as i64,
            st_blocks: stx.blocks as i64,
            st_atime: stx.atime_sec,
            st_atime_nsec: stx.atime_nsec as i64,
            st_mtime: stx.mtime_sec,
            st_mtime_nsec: stx.mtime_nsec as i64,
            st_ctime: stx.ctime_sec,
            st_ctime_nsec: stx.ctime_nsec as i64,
        }),
{
    let mut st = Stat64::zeroed();
    st.st_dev = makedev(stx.dev_major, stx.dev_minor);
    st.st_ino = stx.ino;
    st.st_nlink = stx.nlink as u64;
    st.st_mode = stx.mode as u32;
    st.st_uid = stx.uid;
    st.st_gid = stx.gid;
    st.st_rdev = makedev(stx.rdev_major, stx.rdev_minor);
    st.st_size = stx.size as i64;
    st.st_blksize = stx.blksize as i64;
    st.st_blocks = stx.blocks as i64;
    st.st_atime = stx.atime_sec;
    st.st_atime_nsec = stx.atime_nsec as i64;
    st.st_mtime = stx.mtime_sec;
    st.st_mtime_nsec = stx.mtime_nsec as i64;
    st.st_ctime = stx.ctime_sec;
    st.st_ctime_nsec = stx.ctime_nsec as i64;
    st
}

/// `libc::UTIME_OMIT`: the nanosecond value by which `utimensat` leaves a
/// timestamp as it is. It differs between systems, so that nothing is claimed of
/// it.
#[verifier::external_body]
fn utime_omit() -> i64 {
    libc::UTIME_OMIT
}

/// `libc::UTIME_NOW`: the nanosecond value by which `utimensat` sets a timestamp
/// to the current time. It differs between systems, so that nothing is claimed
/// of it.
#[verifier::external_body]
fn utime_now() -> i64 {
    libc::UTIME_NOW
}

/// A seconds and nanoseconds pair for `utimensat`.
#[derive(Debug, Clone, Copy, PartialEq, Eq, Structural)]
pub struct TimeSpec {
    pub tv_sec: i64,
    pub tv_nsec: i64,
}

/// The nanosecond values that have a meaning of their own to `utimensat`.
#[derive(Debug, Clone, Copy, PartialEq, Eq, Structural)]
pub struct UtimeMarks {
    /// Leave the timestamp as it is.
    pub omit: i64,
    /// Set the timestamp to the current time.
    pub now: i64,
}

/// The marks of the host.
pub closed spec fn host_marks(marks: UtimeMarks) -> bool {
    call_ensures(utime_omit, (), marks.omit) && call_ensures(utime_now, (), marks.now)
}

/// The `utimensat` argument for one timestamp of a `setattr` request.
pub open spec fn utimens_arg(
    selected: bool,
    now: bool,
    sec: i64,
    nsec: i64,
    marks: UtimeMarks,
) -> TimeSpec {
    if !selected {
        TimeSpec { tv_sec: 0, tv_nsec: marks.omit }
    } else if now {
        TimeSpec { tv_sec: 0, tv_nsec: marks.now }
    } else {
        TimeSpec { tv_sec: sec, tv_nsec: nsec }
    }
}

/// The access and modification time arguments of `utimensat` for a `setattr`
/// request.
pub open spec fn utimens_args(attr: Stat64, valid: u32, marks: UtimeMarks) -> Seq<TimeSpec> {
    seq![
        utimens_arg(
            valid & SETATTR_ATIME != 0,
            valid & SETATTR_ATIME_NOW != 0,
            attr.st_atime,
            attr.st_atime_nsec,
            marks,
        ),
        utimens_arg(
            valid & SETATTR_MTIME != 0,
            valid & SETATTR_MTIME_NOW != 0,
            attr.st_mtime,
            attr.st_mtime_nsec,
            marks,
        ),
    ]
}

/// Build the access and modification time arguments of `utimensat` from a
/// `setattr` request and the marks of a host.
pub fn marked_timespecs(attr: Stat64, valid: u32, marks: UtimeMarks) -> (r: [TimeSpec; 2])
    ensures
        r@ == utimens_args(attr, valid, marks),
{
    let mut atime = TimeSpec { tv_sec: 0, tv_nsec: marks.omit };
    let mut mtime = TimeSpec { tv_sec: 0, tv_nsec: marks.omit };
    if valid & SETATTR_ATIME != 0 {
        if valid & SETATTR_ATIME_NOW != 0 {
            atime.tv_nsec = marks.now;
        } else {
            atime.tv_sec = attr.st_atime;
            atime.tv_nsec = attr.st_atime_nsec;
        }
    }
    if valid & SETATTR_MTIME != 0 {
        if valid & SETATTR_MTIME_NOW != 0 {
            mtime.tv_nsec = marks.now;
        } else {
            mtime.tv_sec = attr.st_mtime;
            mtime.tv_nsec = attr.st_mtime_nsec;
        }
    }
    let r = [atime, mtime];
    assert(r@ =~= utimens_args(attr, valid, marks));
    r
}

/// Build the access and modification time arguments of `utimensat` from a
/// `setattr` request.
pub fn build_timespecs(attr: Stat64, valid: u32) -> (r: [TimeSpec; 2])
    ensures
        exists|marks: UtimeMarks| #[trigger]
            host_marks(marks) && r@ == utimens_args(attr, valid, marks),
{
    let marks = UtimeMarks { omit: utime_omit(), now: utime_now() };
    assert(host_marks(marks));
    marked_timespecs(attr, valid, marks)
}

/// Whether `utimensat` takes a nanosecond value for the wish to leave a timestamp alone.
pub closed spec fn leaves_alone(nsec: i64) -> bool {
    call_ensures(utime_omit, (), nsec)
}

/// Whether `utimensat` takes a nanosecond value for the wish to set a timestamp to now.
pub closed spec fn sets_to_now(nsec: i64) -> bool {
    call_ensures(utime_now, (), nsec)
}

/// A timestamp that is not selected is left as it is, and one that is to be set to the
/// current time is marked so, each by the mark that the host has for it.
pub proof fn timestamps_carry_the_marks_of_the_host(
    attr: Stat64,
    valid: u32,
    r: [TimeSpec; 2],
)
    requires
        call_ensures(build_timespecs, (attr, valid), r),
    ensures
        valid & 0x10 == 0 ==> leaves_alone(r@[0].tv_nsec),
        valid & 0x10 != 0 && valid & 0x80 != 0 ==> sets_to_now(r@[0].tv_nsec),
        valid & 0x10 != 0 && valid & 0x80 == 0 ==> r@[0].tv_sec == attr.st_atime && r@[0].tv_nsec
            == attr.st_atime_nsec,
        valid & 0x20 == 0 ==> leaves_alone(r@[1].tv_nsec),
        valid & 0x20 != 0 && valid & 0x100 != 0 ==> sets_to_now(r@[1].tv_nsec),
        valid & 0x20 != 0 && valid & 0x100 == 0 ==> r@[1].tv_sec == attr.st_mtime && r@[1].tv_nsec
            == attr.st_mtime_nsec,
{
}

/// `RESOLVE_BENEATH`: path resolution must not leave the directory tree.
pub const RESOLVE_BENEATH: u64 = 0x08;

/// `RESOLVE_NO_SYMLINKS`: no symlink is followed during resolution.
pub const RESOLVE_NO_SYMLINKS: u64 = 0x04;

/// `RESOLVE_NO_MAGICLINKS`: no procfs-style magic link is followed.
pub const RESOLVE_NO_MAGICLINKS: u64 = 0x02;

/// How `openat2` is asked to resolve names.
pub const OPENAT2_RESOLVE_FLAGS: u64 = RESOLVE_BENEATH | RESOLVE_NO_SYMLINKS
    | RESOLVE_NO_MAGICLINKS;

/// Whether `openat2` is available, going by the errno of a probe, if it failed:
/// it is unless the system call is unknown.
pub fn openat2_available(failure: Option<i32>) -> (r: bool)
    ensures
        r == (failure != Some(LINUX_ENOSYS)),
{
    match failure {
        Some(errno) => errno != LINUX_ENOSYS,
        None => true,
    }
}

/// Whether to open by plain `openat` after all: where `openat2` is not to be
/// used, or turned out to be unknown. `failure` is the errno of the attempt, if
/// there was one and it failed.
pub fn falls_back_to_openat(use_openat2: bool, failure: Option<i32>) -> (r: bool)
    ensures
        r == (!use_openat2 || failure == Some(LINUX_ENOSYS)),
{
    !use_openat2 || !openat2_available(failure)
}

/// The open flags of a host: their values differ between architectures.
#[derive(Debug, Clone, Copy, PartialEq, Eq, Structural)]
pub struct OpenFlags {
    pub accmode: i32,
    pub append: i32,
    pub creat: i32,
    pub excl: i32,
    pub noctty: i32,
    pub trunc: i32,
    pub nonblock: i32,
    pub dsync: i32,
    pub sync: i32,
    pub asynchronous: i32,
    pub direct: i32,
    pub largefile: i32,
    pub directory: i32,
    pub nofollow: i32,
    pub noatime: i32,
    pub cloexec: i32,
    pub path: i32,
    pub tmpfile: i32,
}

impl OpenFlags {
    /// The flags that a guest may pass, besides the access mode.
    pub open spec fn spec_mask(self) -> i32 {
        self.append | self.creat | self.excl | self.noctty | self.trunc | self.nonblock | self.dsync
            | self.sync | self.asynchronous | self.direct | self.largefile | self.directory
            | self.nofollow | self.noatime | self.cloexec | self.path | self.tmpfile
    }

    /// The flags that a guest may pass, besides the access mode.
    #[verifier::when_used_as_spec(spec_mask)]
    pub fn mask(self) -> (r: i32)
        ensures
            r == self.spec_mask(),
    {
        self.append | self.creat | self.excl | self.noctty | self.trunc | self.nonblock | self.dsync
            | self.sync | self.asynchronous | self.direct | self.largefile | self.directory
            | self.nofollow | self.noatime | self.cloexec | self.path | self.tmpfile
    }
}

/// What is left of an open request: its access mode and the flags that a guest
/// may pass.
pub open spec fn sanitized(flags: i32, known: OpenFlags) -> i32 {
    (flags & known.accmode) | (flags & known.mask())
}

/// Keep the access mode of an open request and those of its flags that a guest
/// may pass. `known` are the flags of the host.
pub fn sanitize_linux_open_flags(flags: i32, known: OpenFlags) -> (r: i32)
    ensures
        r == sanitized(flags, known),
{
    (flags & known.accmode) | (flags & known.mask())
}

/// Nothing but the access mode and known flags gets through, every one of them
/// does, and sanitizing twice is sanitizing once.
pub proof fn only_known_flags_get_through(flags: i32, known: OpenFlags)
    ensures
        sanitized(flags, known) & !(known.accmode | known.mask()) == 0,
        sanitized(flags, known) & known.accmode == flags & known.accmode,
        sanitized(flags, known) & known.mask() == flags & known.mask(),
        sanitized(sanitized(flags, known), known) == sanitized(flags, known),
{
    let a = known.accmode;
    let m = known.mask();
    let r = (flags & a) | (flags & m);
    assert(r & !(a | m) == 0 && r & a == flags & a && r & m == flags & m && (r & a) | (r & m) == r)
        by (bit_vector)
        requires
            r == (flags & a) | (flags & m),
    ;
}

} // verus!
