//! Spans of time, instants relative to the Unix epoch, and their wire form.

use vstd::prelude::*;

verus! {

/// Nanoseconds in a second.
pub const NANOS_PER_SEC: u32 = 1_000_000_000;

/// A non-negative span of time. The nanoseconds of a span built by this crate
/// are below one second.
#[derive(Debug, Clone, Copy, PartialEq, Eq, Structural)]
pub struct Span {
    pub secs: u64,
    pub nanos: u32,
}

impl Span {
    /// The length in nanoseconds.
    pub open spec fn nanoseconds(self) -> int {
        self.secs * NANOS_PER_SEC + self.nanos
    }

    /// Whether the nanoseconds are below one second.
    pub open spec fn normal(self) -> bool {
        self.nanos < NANOS_PER_SEC
    }

    /// A span of whole seconds.
    pub fn from_secs(secs: u64) -> (r: Span)
        ensures
            r == (Span { secs, nanos: 0 }),
    {
        Span { secs, nanos: 0 }
    }

    /// The difference of two spans, or nothing at all where it would be negative.
    pub fn saturating_sub(self, other: Span) -> (r: Span)
        requires
            self.normal(),
            other.normal(),
        ensures
            r.normal(),
            r.nanoseconds() == if self.nanoseconds() >= other.nanoseconds() {
                self.nanoseconds() - other.nanoseconds()
            } else {
                0
            },
    {
        if self.secs < other.secs || (self.secs == other.secs && self.nanos < other.nanos) {
            Span { secs: 0, nanos: 0 }
        } else if self.nanos >= other.nanos {
            Span { secs: self.secs - other.secs, nanos: self.nanos - other.nanos }
        } else {
            Span {
                secs: self.secs - other.secs - 1,
                nanos: NANOS_PER_SEC - other.nanos + self.nanos,
            }
        }
    }
}

/// An instant, held as its distance from the Unix epoch and the side of the
/// epoch it lies on. The whole seconds of an instant fit an `i64`.
#[derive(Debug, Clone, Copy, PartialEq, Eq, Structural)]
pub struct VTime {
    before_epoch: bool,
    distance: Span,
}

/// The instant `nanos` nanoseconds after the epoch, if there is one.
pub open spec fn representable(nanos: int) -> bool {
    i64::MIN * NANOS_PER_SEC <= nanos < (i64::MAX + 1) * NANOS_PER_SEC
}

impl VTime {
    /// What every instant satisfies: the distance is normal, the epoch itself is
    /// not before the epoch, and the whole seconds fit an `i64`.
    #[verifier::type_invariant]
    pub closed spec fn well_formed(self) -> bool {
        &&& self.distance.normal()
        &&& self.before_epoch ==> self.distance.nanoseconds() > 0
        &&& representable(self.nanos())
    }

    /// Nanoseconds since the epoch, negative before it.
    pub closed spec fn nanos(self) -> int {
        if self.before_epoch {
            -self.distance.nanoseconds()
        } else {
            self.distance.nanoseconds()
        }
    }

    /// The instant `nanos` nanoseconds after the epoch.
    pub closed spec fn at(nanos: int) -> VTime {
        if nanos < 0 {
            VTime {
                before_epoch: true,
                distance: Span {
                    secs: (-nanos / (NANOS_PER_SEC as int)) as u64,
                    nanos: (-nanos % (NANOS_PER_SEC as int)) as u32,
                },
            }
        } else {
            VTime {
                before_epoch: false,
                distance: Span {
                    secs: (nanos / (NANOS_PER_SEC as int)) as u64,
                    nanos: (nanos % (NANOS_PER_SEC as int)) as u32,
                },
            }
        }
    }

    /// The Unix epoch.
    pub fn epoch() -> (r: VTime)
        ensures
            r.well_formed(),
            r == VTime::at(0),
            r.nanos() == 0,
    {
        VTime { before_epoch: false, distance: Span { secs: 0, nanos: 0 } }
    }

    /// The instant `distance` after the epoch, if it is representable.
    pub fn after_epoch(distance: Span) -> (r: Option<VTime>)
        requires
            distance.normal(),
        ensures
            r is Some <==> representable(distance.nanoseconds()),
            r matches Some(t) ==> t.well_formed() && t.nanos() == distance.nanoseconds(),
    {
        if distance.secs > i64::MAX as u64 {
            None
        } else {
            Some(VTime { before_epoch: false, distance })
        }
    }

    /// The instant `distance` before the epoch, if it is representable.
    pub fn before_epoch(distance: Span) -> (r: Option<VTime>)
        requires
            distance.normal(),
        ensures
            r is Some <==> representable(-distance.nanoseconds()),
            r matches Some(t) ==> t.well_formed() && t.nanos() == -distance.nanoseconds(),
    {
        if distance.secs > 0x8000_0000_0000_0000u64 || (distance.secs == 0x8000_0000_0000_0000u64
            && distance.nanos > 0) {
            None
        } else if distance.secs == 0 && distance.nanos == 0 {
            Some(VTime { before_epoch: false, distance })
        } else {
            Some(VTime { before_epoch: true, distance })
        }
    }

    /// The distance from the epoch: `Ok` for an instant at or after it, `Err`
    /// for one before it.
    pub fn since_epoch(self) -> (r: Result<Span, Span>)
        ensures
            self.well_formed(),
            representable(self.nanos()),
            match r {
                Ok(d) => d.normal() && self.nanos() == d.nanoseconds(),
                Err(d) => d.normal() && d.nanoseconds() > 0 && self.nanos() == -d.nanoseconds(),
            },
    {
        proof {
            use_type_invariant(&self);
        }
        if self.before_epoch {
            Err(self.distance)
        } else {
            Ok(self.distance)
        }
    }
}

/// An instant is determined by its nanoseconds since the epoch, and every
/// representable number of nanoseconds is an instant.
pub proof fn instants_are_their_nanos(t: VTime, nanos: int)
    ensures
        t.well_formed() ==> t == VTime::at(t.nanos()) && representable(t.nanos()),
        representable(nanos) ==> VTime::at(nanos).well_formed() && VTime::at(nanos).nanos()
            == nanos,
{
    if t.well_formed() {
        lemma_floor(
            t.distance.nanoseconds(),
            t.distance.secs as int,
            t.distance.nanos as int,
        );
    }
}

/// The wire form of an instant: whole seconds rounded down, and the nanoseconds
/// past them.
pub open spec fn wire_time(t: VTime) -> (i64, u32) {
    (
        (t.nanos() / (NANOS_PER_SEC as int)) as i64,
        (t.nanos() % (NANOS_PER_SEC as int)) as u32,
    )
}

/// The instant, in nanoseconds, that a seconds and nanoseconds pair stands for:
/// nanoseconds outside one second count as the nearest bound.
pub open spec fn timespec_nanos(sec: i64, nsec: i64) -> int {
    sec * NANOS_PER_SEC + (if nsec < 0 {
        0
    } else if nsec > 999_999_999 {
        999_999_999
    } else {
        nsec as int
    })
}

/// The instant that a wire time stands for.
pub open spec fn time_of_wire(wire: (i64, u32)) -> VTime {
    VTime::at(timespec_nanos(wire.0, wire.1 as i64))
}

/// Build an instant from seconds and nanoseconds since the epoch.
///
/// Any pair is accepted: nanoseconds are clamped to one second, and an instant
/// that is not representable would be the epoch.
pub fn systime(sec: i64, nsec: i64) -> (r: VTime)
    ensures
        r.well_formed(),
        r == VTime::at(timespec_nanos(sec, nsec)),
        r.nanos() == timespec_nanos(sec, nsec),
{
    let nanos: u32 = if nsec < 0 {
        0
    } else if nsec > 999_999_999 {
        999_999_999
    } else {
        nsec as u32
    };
    let t = if sec >= 0 {
        match VTime::after_epoch(Span { secs: sec as u64, nanos }) {
            Some(t) => t,
            None => VTime::epoch(),
        }
    } else {
        // The magnitude of the most negative seconds does not fit an `i64`.
        let magnitude: u64 = (-(sec + 1)) as u64 + 1;
        let below = Span { secs: magnitude, nanos: 0 }.saturating_sub(Span { secs: 0, nanos });
        match VTime::before_epoch(below) {
            Some(t) => t,
            None => VTime::epoch(),
        }
    };
    proof {
        instants_are_their_nanos(t, 0);
    }
    t
}

/// The wire form of an instant: `sec` is the floor of the instant in whole
/// seconds and `nsec` is always below one second.
pub fn time_to_wire(t: VTime) -> (r: (i64, u32))
    ensures
        r == wire_time(t),
        r.1 < NANOS_PER_SEC,
        t.nanos() == r.0 * NANOS_PER_SEC + r.1,
{
    match t.since_epoch() {
        Ok(d) => {
            proof {
                lemma_floor(t.nanos(), d.secs as int, d.nanos as int);
            }
            (d.secs as i64, d.nanos)
        },
        Err(d) => {
            if d.nanos == 0 {
                proof {
                    lemma_floor(t.nanos(), -(d.secs as int), 0);
                }
                if d.secs == 0x8000_0000_0000_0000u64 {
                    (i64::MIN, 0)
                } else {
                    (-(d.secs as i64), 0)
                }
            } else {
                proof {
                    lemma_floor(t.nanos(), -(d.secs as int) - 1, NANOS_PER_SEC - d.nanos);
                }
                (-(d.secs as i64) - 1, NANOS_PER_SEC - d.nanos)
            }
        },
    }
}

/// Decode a wire time. A peer can send any pair; see [`systime`].
pub fn wire_to_time(wire: (i64, u32)) -> (r: VTime)
    ensures
        r.well_formed(),
        r == time_of_wire(wire),
{
    systime(wire.0, wire.1 as i64)
}

/// Floor division by a second is determined by the remainder's range.
proof fn lemma_floor(n: int, q: int, r: int)
    requires
        n == q * NANOS_PER_SEC + r,
        0 <= r < NANOS_PER_SEC,
    ensures
        n / (NANOS_PER_SEC as int) == q,
        n % (NANOS_PER_SEC as int) == r,
{
}

/// A wire time decodes to the instant it was encoded from, also before the
/// epoch and with a fraction of a second.
pub proof fn time_round_trips(t: VTime)
    requires
        t.well_formed(),
    ensures
        time_of_wire(wire_time(t)) == t,
{
    let n = t.nanos();
    lemma_floor(n, n / (NANOS_PER_SEC as int), n % (NANOS_PER_SEC as int));
    assert(i64::MIN <= n / (NANOS_PER_SEC as int) <= i64::MAX);
    instants_are_their_nanos(t, n);
}

/// Every wire time with nanoseconds below one second is the wire time of the
/// instant it decodes to.
pub proof fn wire_time_round_trips(wire: (i64, u32))
    requires
        wire.1 < NANOS_PER_SEC,
    ensures
        time_of_wire(wire).well_formed(),
        wire_time(time_of_wire(wire)) == wire,
{
    let n = timespec_nanos(wire.0, wire.1 as i64);
    instants_are_their_nanos(VTime::at(0), n);
    lemma_floor(n, wire.0 as int, wire.1 as int);
}

} // verus!
