//! A session: how it starts, what it agrees on, and how it ends.

use crate::abi::{Entry, StatVfs64};
use crate::bytes::root;
use crate::clock::instant_of_reading;
use crate::config::{CachePolicy, VirtualFsConfig};
use crate::error::FsError;
use crate::path_fs::PathFs;
use crate::time::{Span, VTime};
use crate::vfs::VirtualFs;
use vstd::prelude::*;

verus! {

/// A new file system knows its root and nothing else, and has nothing open. It uses the
/// given provider and keeps entries and attributes for a second.
pub proof fn sessions_start_with_the_root<P: PathFs>(
    provider: P,
    cfg: VirtualFsConfig,
    plain: Result<VirtualFs<P>, FsError>,
    configured: Result<VirtualFs<P>, FsError>,
    ino: u64,
)
    requires
        call_ensures(VirtualFs::<P>::new, (provider,), plain),
        call_ensures(VirtualFs::<P>::with_config, (provider, cfg), configured),
    ensures
        plain is Ok && configured is Ok,
        plain->Ok_0@ == configured->Ok_0@,
        plain->Ok_0.backend() == provider && configured->Ok_0.backend() == provider,
        configured->Ok_0.config() == cfg,
        plain->Ok_0.config().entry_timeout.secs == 1 && plain->Ok_0.config().entry_timeout.nanos
            == 0,
        plain->Ok_0.config().attr_timeout.secs == 1 && plain->Ok_0.config().attr_timeout.nanos == 0,
        plain->Ok_0.config().cache_policy == CachePolicy::Auto,
        !plain->Ok_0.config().writeback,
        plain->Ok_0@.nodes.contains_key(ino) <==> ino == 1,
        plain->Ok_0@.nodes[1].path == seq![47u8],
        plain->Ok_0@.nodes[1].refs > 0,
        plain->Ok_0@.files.len() == 0 && plain->Ok_0@.dirs.len() == 0,
        plain->Ok_0@.next_inode == 2 && plain->Ok_0@.next_handle == 1,
{
    assert(root() =~= seq![47u8]);
}

/// The options of a session are those that both sides know, and no others: writing back
/// only where it is configured, and the choice of when to list with attributes exactly
/// where listing with attributes is possible.
pub proof fn sessions_agree_on_options<P: PathFs>(
    fs: VirtualFs<P>,
    capable: u32,
    r: Result<u32, FsError>,
)
    requires
        call_ensures(VirtualFs::<P>::init, (&fs, capable), r),
    ensures
        r is Ok,
        r->Ok_0 & 0x1 == capable & 0x1,
        r->Ok_0 & 0x20 == capable & 0x20,
        r->Ok_0 & 0x40 == capable & 0x40,
        r->Ok_0 & 0x2000 == capable & 0x2000,
        r->Ok_0 & 0x4000 != 0 <==> capable & 0x2000 != 0,
        r->Ok_0 & 0x4_0000 == capable & 0x4_0000,
        r->Ok_0 & 0x40_0000 == capable & 0x40_0000,
        fs.config().writeback ==> r->Ok_0 & 0x1_0000 == capable & 0x1_0000,
        !fs.config().writeback ==> r->Ok_0 & 0x1_0000 == 0,
        r->Ok_0 & !0x45_6061u32 == 0,
{
    let o = r->Ok_0;
    let base = capable & (0x40u32 | 0x20u32 | 0x1u32 | 0x4_0000u32 | 0x40_0000u32);
    let plus = if capable & 0x2000 != 0 {
        0x2000u32 | 0x4000u32
    } else {
        0u32
    };
    let back = if fs.config().writeback && capable & 0x1_0000 != 0 {
        0x1_0000u32
    } else {
        0u32
    };
    assert(o == base | plus | back);
    assert(o & 0x1 == capable & 0x1 && o & 0x20 == capable & 0x20 && o & 0x40 == capable & 0x40 && o
        & 0x2000 == capable & 0x2000 && (o & 0x4000 != 0 <==> capable & 0x2000 != 0) && o & 0x4_0000
        == capable & 0x4_0000 && o & 0x40_0000 == capable & 0x40_0000 && o & 0x1_0000 == back && o
        & !0x45_6061u32 == 0) by (bit_vector)
        requires
            base == capable & (0x40u32 | 0x20u32 | 0x1u32 | 0x4_0000u32 | 0x40_0000u32),
            plus == (if capable & 0x2000 != 0 {
                0x2000u32 | 0x4000u32
            } else {
                0u32
            }),
            back == 0u32 || back == 0x1_0000u32,
            o == base | plus | back,
    ;
    assert(capable & 0x1_0000 == 0 || capable & 0x1_0000 == 0x1_0000) by (bit_vector);
}

/// Every answer to a request for the statistics is `reply`.
pub open spec fn statfs_is<P: PathFs>(p: P, reply: Result<StatVfs64, FsError>) -> bool {
    forall|a: Result<StatVfs64, FsError>| #[trigger]
        call_ensures(P::statfs, (&p,), a) ==> a == reply
}

/// The statistics are those of the provider, and hard links are not supported.
pub proof fn statistics_are_those_of_the_provider<P: PathFs>(
    fs: VirtualFs<P>,
    reply: Result<StatVfs64, FsError>,
    r: Result<StatVfs64, FsError>,
    ino: u64,
    parent: u64,
    name: &[u8],
    link: Result<Entry, FsError>,
)
    requires
        statfs_is(fs.backend(), reply),
        call_ensures(VirtualFs::<P>::statfs, (&fs,), r),
        call_ensures(VirtualFs::<P>::link, (&fs, ino, parent, name), link),
    ensures
        r == reply,
        link == Err::<Entry, FsError>(FsError::Os(38)),
{
}

/// The open options follow the cache policy: no cache, the choice of the guest, or the cache
/// kept.
pub proof fn options_follow_the_cache_policy<P: PathFs>(fs: VirtualFs<P>, always: u32, r: u32)
    requires
        call_ensures(VirtualFs::<P>::cache_options, (&fs, always), r),
    ensures
        fs.config().cache_policy == CachePolicy::Never ==> r == 1,
        fs.config().cache_policy == CachePolicy::Auto ==> r == 0,
        fs.config().cache_policy == CachePolicy::Always ==> r == always,
{
}

/// A clock reading is the instant that far after or before the epoch, and the epoch itself
/// where there is no such instant.
pub proof fn readings_are_instants(reading: Result<Span, Span>, r: VTime)
    requires
        match reading {
            Ok(d) => d.nanos < 1_000_000_000,
            Err(d) => d.nanos < 1_000_000_000,
        },
        call_ensures(instant_of_reading, (reading,), r),
    ensures
        reading matches Ok(d) ==> r.nanos() == (if d.secs <= i64::MAX {
            d.secs * 1_000_000_000 + d.nanos
        } else {
            0
        }),
        reading matches Err(d) ==> r.nanos() == (if d.secs < 0x8000_0000_0000_0000 || (d.secs
            == 0x8000_0000_0000_0000 && d.nanos == 0) {
            -(d.secs * 1_000_000_000 + d.nanos)
        } else {
            0
        }),
{
}

/// The difference of two spans makes up for the smaller one, and there is none where the
/// second is the larger.
pub proof fn spans_are_taken_apart(a: Span, b: Span, r: Span)
    requires
        a.nanos < 1_000_000_000,
        b.nanos < 1_000_000_000,
        call_ensures(Span::saturating_sub, (a, b), r),
    ensures
        r.nanos < 1_000_000_000,
        (a.secs, a.nanos) == (b.secs, b.nanos) || a.secs < b.secs || (a.secs == b.secs && a.nanos
            < b.nanos) ==> r.secs == 0 && r.nanos == 0,
        a.secs > b.secs || (a.secs == b.secs && a.nanos > b.nanos) ==> r.secs * 1_000_000_000
            + r.nanos + b.secs * 1_000_000_000 + b.nanos == a.secs * 1_000_000_000 + a.nanos,
{
}

/// An instant lies as far from the epoch as it was made to lie, and on the side that was
/// asked for.
pub proof fn distances_are_kept(
    d: Span,
    after: Option<VTime>,
    before: Option<VTime>,
    forth: Result<Span, Span>,
    back: Result<Span, Span>,
)
    requires
        d.nanos < 1_000_000_000,
        call_ensures(VTime::after_epoch, (d,), after),
        call_ensures(VTime::before_epoch, (d,), before),
        after is Some ==> call_ensures(VTime::since_epoch, (after->0,), forth),
        before is Some ==> call_ensures(VTime::since_epoch, (before->0,), back),
    ensures
        after is Some <==> d.secs < 0x8000_0000_0000_0000,
        before is Some <==> d.secs < 0x8000_0000_0000_0000 || (d.secs == 0x8000_0000_0000_0000
            && d.nanos == 0),
        after is Some ==> forth == Ok::<Span, Span>(d),
        before is Some ==> back == (if d.secs == 0 && d.nanos == 0 {
            Ok::<Span, Span>(d)
        } else {
            Err(d)
        }),
{
}

/// A session ends with empty tables.
pub proof fn sessions_end_with_nothing<P: PathFs>(
    before: VirtualFs<P>,
    after: VirtualFs<P>,
    key: u64,
)
    requires
        exists|fs: &mut VirtualFs<P>|
            *fs == before && *final(fs) == after && #[trigger] call_ensures(
                VirtualFs::<P>::destroy,
                (fs,),
                (),
            ),
    ensures
        after.same_setup(&before),
        !after@.nodes.contains_key(key),
        !after@.files.contains_key(key),
        !after@.dirs.contains_key(key),
        after@.next_inode == before@.next_inode,
        after@.next_handle == before@.next_handle,
{
}

} // verus!
