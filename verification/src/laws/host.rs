//! The values of the host and those of the guest.

use super::listings::shown_type;
use super::kind_bits;
use crate::abi::{Stat64, Statx};
use crate::error::{DataFault, FsError};
use crate::path_fs::NodeKind;
use crate::platform::{
    device_number, dirent_type_from_mode, eacces, eagain, ebadf, eexist, efbig, einval, eio, eisdir,
    eloop, enametoolong, enodata, enodev, enoent, enospc, enosys, enotdir, enotempty, enxio,
    eopnotsupp, eperm, erange, erofs, estale, falls_back_to_openat, linux_errno_raw, linux_error,
    makedev, marked_timespecs, mode_file_type, openat2_available, sanitize_linux_open_flags,
    statx_to_stat64, HostError, HostErrorKind, HostOs, OpenFlags, TimeSpec, UtimeMarks,
};
use vstd::prelude::*;

verus! {

/// The Linux number of the error that macOS numbers `errno`: both systems give the error
/// the same name, and an error that only macOS has is an input/output error.
pub open spec fn linux_number(errno: i32) -> i32 {
    match errno {
        1 => 1,
        2 => 2,
        3 => 3,
        4 => 4,
        5 => 5,
        6 => 6,
        7 => 7,
        8 => 8,
        9 => 9,
        10 => 10,
        12 => 12,
        13 => 13,
        14 => 14,
        15 => 15,
        16 => 16,
        17 => 17,
        18 => 18,
        19 => 19,
        20 => 20,
        21 => 21,
        22 => 22,
        23 => 23,
        24 => 24,
        25 => 25,
        26 => 26,
        27 => 27,
        28 => 28,
        29 => 29,
        30 => 30,
        31 => 31,
        32 => 32,
        33 => 33,
        34 => 34,
        11 => 35,
        35 => 11,
        36 => 115,
        37 => 114,
        38 => 88,
        39 => 89,
        40 => 90,
        41 => 91,
        42 => 92,
        43 => 93,
        44 => 94,
        45 => 95,
        46 => 96,
        47 => 97,
        48 => 98,
        49 => 99,
        50 => 100,
        51 => 101,
        52 => 102,
        53 => 103,
        54 => 104,
        55 => 105,
        56 => 106,
        57 => 107,
        58 => 108,
        59 => 109,
        60 => 110,
        61 => 111,
        62 => 40,
        63 => 36,
        64 => 112,
        65 => 113,
        66 => 39,
        68 => 87,
        69 => 122,
        70 => 116,
        71 => 66,
        77 => 37,
        78 => 38,
        84 => 75,
        89 => 125,
        90 => 43,
        91 => 42,
        92 => 84,
        93 => 61,
        94 => 74,
        95 => 72,
        96 => 61,
        97 => 67,
        98 => 63,
        99 => 60,
        100 => 71,
        101 => 62,
        102 => 95,
        104 => 131,
        105 => 130,
        _ => 5,
    }
}

/// Every macOS error has the Linux number of its name.
pub proof fn errors_keep_their_name(errno: i32, r: i32)
    requires
        call_ensures(linux_errno_raw, (errno,), r),
    ensures
        r == linux_number(errno),
{
}

/// The errno that a class of error stands for.
pub open spec fn class_number(kind: HostErrorKind) -> i32 {
    match kind {
        HostErrorKind::NotFound => 2,
        HostErrorKind::PermissionDenied => 13,
        HostErrorKind::AlreadyExists => 17,
        HostErrorKind::InvalidInput => 22,
        HostErrorKind::Unsupported => 95,
        _ => 5,
    }
}

/// A host error is the Linux error of the same meaning: its own code on Linux, the code of
/// the same name for macOS, and for Windows the code of what the system or the class of the
/// error says.
pub proof fn host_errors_keep_their_meaning(host: HostOs, error: HostError, r: FsError)
    requires
        call_ensures(linux_error, (host, error), r),
    ensures
        host == HostOs::Linux ==> (error.code matches Some(code) ==> r == FsError::Os(code)),
        host == HostOs::Linux && error.code is None ==> r == (match error.kind {
            HostErrorKind::InvalidInput => FsError::InvalidInput,
            HostErrorKind::InvalidData => FsError::InvalidData(DataFault::Malformed),
            HostErrorKind::UnexpectedEof => FsError::UnexpectedEof,
            _ => FsError::Other,
        }),
        host == HostOs::Macos ==> r == FsError::Os(
            match error.code {
                Some(code) => linux_number(code),
                None => 5,
            },
        ),
        host == HostOs::Windows ==> r == FsError::Os(
            match error.code {
                Some(2) => 2,
                Some(3) => 2,
                Some(5) => 13,
                Some(17) => 18,
                Some(32) => 16,
                Some(80) => 17,
                Some(123) => 22,
                Some(145) => 39,
                Some(183) => 17,
                Some(1314) => 13,
                _ => class_number(error.kind),
            },
        ),
{
}

/// The type that a listing shows for the kind bits of a mode is that of the kind.
pub proof fn mode_types_are_listed_alike(kind: NodeKind, mode: u32, bits: u32, r: u32)
    requires
        mode & 0xf000 == kind_bits(kind),
        call_ensures(mode_file_type, (mode,), bits),
        call_ensures(dirent_type_from_mode, (bits,), r),
    ensures
        bits == kind_bits(kind),
        r == shown_type(kind),
{
}

/// A device number holds the low byte of the minor number lowest, the low twelve bits of
/// the major number above it, and above those the rest of the minor and of the major number.
pub proof fn device_numbers_have_their_layout(major: u32, minor: u32, r: u64)
    requires
        call_ensures(makedev, (major, minor), r),
    ensures
        r & 0xff == minor & 0xff,
        (r >> 8) & 0xfff == major & 0xfff,
        (r >> 20) & 0xff_ffff == minor >> 8,
        r >> 44 == major >> 12,
{
    let hi = major as u64;
    let lo = minor as u64;
    assert(r & 0xff == lo & 0xff && (r >> 8) & 0xfff == hi & 0xfff && (r >> 20) & 0xff_ffff == lo
        >> 8 && r >> 44 == hi >> 12) by (bit_vector)
        requires
            hi <= 0xffff_ffff,
            lo <= 0xffff_ffff,
            r == ((hi & 0xfffff000u64) << 32) | ((hi & 0x00000fffu64) << 8) | ((lo
                & 0xffffff00u64) << 12) | (lo & 0x000000ffu64),
    ;
    assert(hi & 0xff == major & 0xff && hi & 0xfff == major & 0xfff && lo & 0xff == minor & 0xff
        && lo >> 8 == minor >> 8 && hi >> 12 == major >> 12) by (bit_vector)
        requires
            hi == major as u64,
            lo == minor as u64,
    ;
}

/// A `statx` record is shown as a `stat` field by field.
pub proof fn extended_attributes_are_shown_field_by_field(stx: &Statx, r: Stat64)
    requires
        call_ensures(statx_to_stat64, (stx,), r),
    ensures
        r.st_dev == device_number(stx.dev_major, stx.dev_minor),
        r.st_rdev == device_number(stx.rdev_major, stx.rdev_minor),
        r.st_ino == stx.ino,
        r.st_nlink == stx.nlink,
        r.st_mode == stx.mode,
        r.st_uid == stx.uid,
        r.st_gid == stx.gid,
        stx.size <= i64::MAX ==> r.st_size == stx.size,
        r.st_blksize == stx.blksize,
        stx.blocks <= i64::MAX ==> r.st_blocks == stx.blocks,
        r.st_atime == stx.atime_sec && r.st_atime_nsec == stx.atime_nsec,
        r.st_mtime == stx.mtime_sec && r.st_mtime_nsec == stx.mtime_nsec,
        r.st_ctime == stx.ctime_sec && r.st_ctime_nsec == stx.ctime_nsec,
{
}

/// Whether a time argument is the one that a request stands for: the time it names where it
/// selects one, and a mark where it asks for the current time or selects none.
pub open spec fn marks_time(
    arg: TimeSpec,
    selected: bool,
    now: bool,
    sec: i64,
    nsec: i64,
    marks: UtimeMarks,
) -> bool {
    &&& !selected ==> arg.tv_nsec == marks.omit
    &&& selected && now ==> arg.tv_nsec == marks.now
    &&& selected && !now ==> arg.tv_sec == sec && arg.tv_nsec == nsec
}

/// Only the times that a request selects are set, each to the one that it names or to the
/// current one.
pub proof fn selected_times_are_set(
    attr: Stat64,
    valid: u32,
    marks: UtimeMarks,
    r: [TimeSpec; 2],
)
    requires
        call_ensures(marked_timespecs, (attr, valid, marks), r),
    ensures
        marks_time(
            r@[0],
            valid & 0x10 != 0,
            valid & 0x80 != 0,
            attr.st_atime,
            attr.st_atime_nsec,
            marks,
        ),
        marks_time(
            r@[1],
            valid & 0x20 != 0,
            valid & 0x100 != 0,
            attr.st_mtime,
            attr.st_mtime_nsec,
            marks,
        ),
{
}

/// `openat2` is there unless a probe says that the system call is unknown, and plain
/// `openat` is used where it is not there or not wanted.
pub proof fn only_an_unknown_call_is_replaced(
    failure: Option<i32>,
    wanted: bool,
    available: bool,
    plain: bool,
)
    requires
        call_ensures(openat2_available, (failure,), available),
        call_ensures(falls_back_to_openat, (wanted, failure), plain),
    ensures
        available <==> (failure matches Some(errno) ==> errno != 38),
        plain <==> !(wanted && available),
{
}

/// Each error has the number that Linux gives it.
pub proof fn errors_have_their_numbers(
    made: Seq<FsError>,
)
    requires
        made.len() == 23,
        call_ensures(eio, (), made[0]),
        call_ensures(ebadf, (), made[1]),
        call_ensures(einval, (), made[2]),
        call_ensures(eacces, (), made[3]),
        call_ensures(eperm, (), made[4]),
        call_ensures(erofs, (), made[5]),
        call_ensures(enosys, (), made[6]),
        call_ensures(enoent, (), made[7]),
        call_ensures(enodata, (), made[8]),
        call_ensures(eisdir, (), made[9]),
        call_ensures(enotdir, (), made[10]),
        call_ensures(enotempty, (), made[11]),
        call_ensures(eloop, (), made[12]),
        call_ensures(enametoolong, (), made[13]),
        call_ensures(eexist, (), made[14]),
        call_ensures(enospc, (), made[15]),
        call_ensures(efbig, (), made[16]),
        call_ensures(eopnotsupp, (), made[17]),
        call_ensures(enodev, (), made[18]),
        call_ensures(enxio, (), made[19]),
        call_ensures(erange, (), made[20]),
        call_ensures(eagain, (), made[21]),
        call_ensures(estale, (), made[22]),
    ensures
        made == seq![5, 9, 22, 13, 1, 30, 38, 2, 61, 21, 20, 39, 40, 36, 17, 28, 27, 95, 19, 6, 34,
            11, 116i32].map_values(|n: i32| FsError::Os(n)),
{
}

/// Of the flags of an open request, those get through that are the access mode or one of the
/// known flags, and no others.
pub proof fn open_flags_are_filtered(flags: i32, known: OpenFlags, bit: i32, r: i32)
    requires
        call_ensures(sanitize_linux_open_flags, (flags, known), r),
    ensures
        r & !flags == 0,
        bit == known.accmode || bit == known.append || bit == known.creat || bit == known.excl
            || bit == known.noctty || bit == known.trunc || bit == known.nonblock || bit
            == known.dsync || bit == known.sync || bit == known.asynchronous || bit == known.direct
            || bit == known.largefile || bit == known.directory || bit == known.nofollow || bit
            == known.noatime || bit == known.cloexec || bit == known.path || bit == known.tmpfile
            ==> r & bit == flags & bit,
        bit & known.accmode == 0 && bit & known.append == 0 && bit & known.creat == 0 && bit
            & known.excl == 0 && bit & known.noctty == 0 && bit & known.trunc == 0 && bit
            & known.nonblock == 0 && bit & known.dsync == 0 && bit & known.sync == 0 && bit
            & known.asynchronous == 0 && bit & known.direct == 0 && bit & known.largefile == 0
            && bit & known.directory == 0 && bit & known.nofollow == 0 && bit & known.noatime == 0
            && bit & known.cloexec == 0 && bit & known.path == 0 && bit & known.tmpfile == 0 ==> r
            & bit == 0,
{
    let a = known.accmode;
    let m = known.mask();
    assert(r & !flags == 0 && r & a == flags & a && r & m == flags & m) by (bit_vector)
        requires
            r == (flags & a) | (flags & m),
    ;
    let (b1, b2, b3, b4, b5, b6) = (
        known.append,
        known.creat,
        known.excl,
        known.noctty,
        known.trunc,
        known.nonblock,
    );
    let (b7, b8, b9, b10, b11, b12) = (
        known.dsync,
        known.sync,
        known.asynchronous,
        known.direct,
        known.largefile,
        known.directory,
    );
    let (b13, b14, b15, b16, b17) = (
        known.nofollow,
        known.noatime,
        known.cloexec,
        known.path,
        known.tmpfile,
    );
    assert((bit & a == 0 && bit & b1 == 0 && bit & b2 == 0 && bit & b3 == 0 && bit & b4 == 0 && bit
        & b5 == 0 && bit & b6 == 0 && bit & b7 == 0 && bit & b8 == 0 && bit & b9 == 0 && bit & b10
        == 0 && bit & b11 == 0 && bit & b12 == 0 && bit & b13 == 0 && bit & b14 == 0 && bit & b15
        == 0 && bit & b16 == 0 && bit & b17 == 0) ==> r & bit == 0) by (bit_vector)
        requires
            r == (flags & a) | (flags & m),
            m == b1 | b2 | b3 | b4 | b5 | b6 | b7 | b8 | b9 | b10 | b11 | b12 | b13 | b14 | b15
                | b16 | b17,
    ;
    if bit != a {
        assert((bit == b1 || bit == b2 || bit == b3 || bit == b4 || bit == b5 || bit == b6 || bit
            == b7 || bit == b8 || bit == b9 || bit == b10 || bit == b11 || bit == b12 || bit == b13
            || bit == b14 || bit == b15 || bit == b16 || bit == b17) ==> r & bit == flags & bit) by (
        bit_vector)
            requires
                r & m == flags & m,
                m == b1 | b2 | b3 | b4 | b5 | b6 | b7 | b8 | b9 | b10 | b11 | b12 | b13 | b14 | b15
                    | b16 | b17,
        ;
    }
}

} // verus!
