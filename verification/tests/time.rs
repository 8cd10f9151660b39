use microsandbox_vfs::abi::{
    Stat64, Statx, SETATTR_ATIME, SETATTR_ATIME_NOW, SETATTR_MTIME, SETATTR_MTIME_NOW,
};
use microsandbox_vfs::clock::{current_time, current_timespec, instant_of_reading, time_parts};
use microsandbox_vfs::platform::{build_timespecs, makedev, statx_to_stat64, TimeSpec};
use microsandbox_vfs::time::{systime, time_to_wire, wire_to_time, Span, VTime};

fn after(secs: u64, nanos: u32) -> VTime {
    VTime::after_epoch(Span { secs, nanos }).unwrap()
}

fn before(secs: u64, nanos: u32) -> VTime {
    VTime::before_epoch(Span { secs, nanos }).unwrap()
}

#[test]
fn systime_handles_guest_extremes_without_panicking() {
    let _ = systime(i64::MAX, 999_999_999);
    let _ = systime(i64::MAX, i64::MAX);
    let _ = systime(i64::MIN, 0);
    let _ = systime(i64::MIN, i64::MAX);
    let _ = systime(-1, 2_000_000_000);

    assert_eq!(systime(0, 0), VTime::epoch());
    assert_eq!(systime(1_000, 500_000_000), after(1_000, 500_000_000));
}

#[test]
fn time_round_trips_including_pre_epoch_subsecond() {
    for t in [
        VTime::epoch(),
        after(1_000, 500_000_000),
        before(0, 500_000_000),
        before(1, 500_000_000),
        before(2, 0),
    ] {
        assert_eq!(wire_to_time(time_to_wire(t)), t, "time round-trip mismatch");
    }
}

#[test]
fn wire_to_time_handles_extremes_without_panicking() {
    let _ = wire_to_time((i64::MAX, 999_999_999));
    let _ = wire_to_time((i64::MIN, 0));
    let _ = wire_to_time((i64::MIN, 999_999_999));
    assert_eq!(wire_to_time((0, 0)), VTime::epoch());
    assert_eq!(
        wire_to_time((1_000, 500_000_000)),
        after(1_000, 500_000_000)
    );
}

#[test]
fn wire_times_floor_before_the_epoch() {
    assert_eq!(time_to_wire(before(0, 500_000_000)), (-1, 500_000_000));
    assert_eq!(time_to_wire(before(2, 0)), (-2, 0));
    assert_eq!(time_to_wire(after(7, 1)), (7, 1));
    assert_eq!(systime(-1, 500_000_000), before(0, 500_000_000));
    assert_eq!(systime(5, -3), after(5, 0));
    assert_eq!(systime(5, 2_000_000_000), after(5, 999_999_999));
}

#[test]
fn clock_readings_become_instants() {
    let now = current_time();
    assert!(now.since_epoch().unwrap().secs > 1_000_000_000);
    let (sec, nsec) = current_timespec();
    assert!(sec > 1_000_000_000 && (0..1_000_000_000).contains(&nsec));
    assert_eq!(
        instant_of_reading(Ok(Span { secs: 3, nanos: 4 })),
        after(3, 4)
    );
    assert_eq!(
        instant_of_reading(Err(Span { secs: 3, nanos: 4 })),
        before(3, 4)
    );
    assert_eq!(
        instant_of_reading(Ok(Span {
            secs: u64::MAX,
            nanos: 0
        })),
        VTime::epoch()
    );
    assert_eq!(time_parts(Some(before(5, 0))), (0, 0));
    assert_eq!(time_parts(Some(after(5, 6))), (5, 6));
}

#[test]
fn utimens_arguments_follow_the_selection() {
    let mut attr = Stat64::zeroed();
    attr.st_atime = 11;
    attr.st_atime_nsec = 12;
    attr.st_mtime = 21;
    attr.st_mtime_nsec = 22;
    let omit = TimeSpec {
        tv_sec: 0,
        tv_nsec: 1_073_741_822,
    };
    let now = TimeSpec {
        tv_sec: 0,
        tv_nsec: 1_073_741_823,
    };
    assert_eq!(build_timespecs(attr, 0), [omit, omit]);
    assert_eq!(
        build_timespecs(attr, SETATTR_ATIME | SETATTR_MTIME | SETATTR_MTIME_NOW),
        [
            TimeSpec {
                tv_sec: 11,
                tv_nsec: 12
            },
            now
        ]
    );
    assert_eq!(
        build_timespecs(attr, SETATTR_ATIME | SETATTR_ATIME_NOW | SETATTR_MTIME),
        [
            now,
            TimeSpec {
                tv_sec: 21,
                tv_nsec: 22
            }
        ]
    );
}

#[test]
fn statx_records_become_stat_records() {
    assert_eq!(makedev(8, 1), 0x801);
    assert_eq!(makedev(0x12345, 0x6789a), 0x0001_2000_6783_459a);
    let stx = Statx {
        dev_major: 8,
        dev_minor: 1,
        ino: 42,
        nlink: 3,
        mode: 0o100644,
        uid: 1,
        gid: 2,
        rdev_major: 1,
        rdev_minor: 3,
        size: 77,
        blksize: 4096,
        blocks: 8,
        atime_sec: 5,
        atime_nsec: 6,
        mtime_sec: 7,
        mtime_nsec: 8,
        ctime_sec: 9,
        ctime_nsec: 10,
    };
    let st = statx_to_stat64(&stx);
    assert_eq!(st.st_dev, 0x801);
    assert_eq!(st.st_rdev, 0x103);
    assert_eq!((st.st_ino, st.st_nlink, st.st_mode), (42, 3, 0o100644));
    assert_eq!((st.st_size, st.st_blksize, st.st_blocks), (77, 4096, 8));
    assert_eq!((st.st_atime, st.st_atime_nsec), (5, 6));
    assert_eq!((st.st_ctime, st.st_ctime_nsec), (9, 10));
}
