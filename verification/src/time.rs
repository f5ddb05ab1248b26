use vstd::prelude::*;

verus! {

/// Seconds in a day.
pub const SECS_PER_DAY: i64 = 86_400;

/// Nanoseconds in a second.
pub const NANOS_PER_SEC: i64 = 1_000_000_000;

/// The largest distance from the epoch, in seconds, that a time may have.
/// Every time that `chrono` can represent (years -262144 to 262143) lies
/// within it.
pub const MAX_ABS_SECS: i64 = 9_000_000_000_000;

/// `true` when the three parts make a point in time: seconds since the Unix
/// epoch (UTC), the nanoseconds within that second (above a billion only
/// during a leap second), and the offset of the local zone east of UTC.
pub open spec fn valid_parts(secs: int, nanos: int, offset: int) -> bool {
    &&& -MAX_ABS_SECS <= secs <= MAX_ABS_SECS
    &&& 0 <= nanos < 2 * NANOS_PER_SEC
    &&& -SECS_PER_DAY < offset < SECS_PER_DAY
}

/// A point in time together with the offset of the local time zone that
/// was in force there, as the tracker stores the start and end of entries.
#[derive(Clone, Copy, Debug, PartialEq, Eq)]
pub struct LocalDateTime {
    secs: i64,
    nanos: u32,
    offset: i32,
}

impl LocalDateTime {
    #[verifier::type_invariant]
    spec fn inv(self) -> bool {
        valid_parts(self.secs as int, self.nanos as int, self.offset as int)
    }

    /// Seconds since the Unix epoch.
    pub closed spec fn timestamp(self) -> int {
        self.secs as int
    }

    /// Nanoseconds within the second.
    pub closed spec fn nanosecond(self) -> int {
        self.nanos as int
    }

    /// Offset of the local zone, in seconds east of UTC.
    pub closed spec fn offset_secs(self) -> int {
        self.offset as int
    }

    /// Seconds since the epoch of the local wall clock.
    pub open spec fn local_secs(self) -> int {
        self.timestamp() + self.offset_secs()
    }

    /// The local date, as days since 1970-01-01.
    pub open spec fn date(self) -> int {
        self.local_secs() / (SECS_PER_DAY as int)
    }

    /// Seconds since local midnight.
    pub open spec fn seconds_of_day(self) -> int {
        self.local_secs() % (SECS_PER_DAY as int)
    }

    /// `self` comes strictly before `other`.
    pub open spec fn before(self, other: LocalDateTime) -> bool {
        ||| self.timestamp() < other.timestamp()
        ||| (self.timestamp() == other.timestamp() && self.nanosecond() < other.nanosecond())
    }

    /// `self` comes no later than `other`.
    pub open spec fn not_after(self, other: LocalDateTime) -> bool {
        !other.before(self)
    }

    /// The time from `self` to `later`, in nanoseconds.
    pub open spec fn nanos_until(self, later: LocalDateTime) -> int {
        (later.timestamp() - self.timestamp()) * (NANOS_PER_SEC as int) + (later.nanosecond()
            - self.nanosecond())
    }

    /// Builds a time from its parts; `None` when they do not make one.
    pub fn from_parts(secs: i64, nanos: u32, offset: i32) -> (r: Option<LocalDateTime>)
        ensures
            r is Some <==> valid_parts(secs as int, nanos as int, offset as int),
            r matches Some(t) ==> t.timestamp() == secs && t.nanosecond() == nanos
                && t.offset_secs() == offset,
    {
        if -MAX_ABS_SECS <= secs && secs <= MAX_ABS_SECS && nanos < 2_000_000_000 && -SECS_PER_DAY
            < offset as i64 && (offset as i64) < SECS_PER_DAY {
            Some(LocalDateTime { secs, nanos, offset })
        } else {
            None
        }
    }

    /// The parts of the time: seconds since the epoch, nanoseconds, offset.
    pub fn parts(&self) -> (r: (i64, u32, i32))
        ensures
            r.0 == self.timestamp(),
            r.1 == self.nanosecond(),
            r.2 == self.offset_secs(),
            valid_parts(r.0 as int, r.1 as int, r.2 as int),
    {
        proof {
            use_type_invariant(self);
        }
        (self.secs, self.nanos, self.offset)
    }

    /// Seconds since the epoch of the local wall clock.
    pub fn local_seconds(&self) -> (r: i64)
        ensures
            r == self.local_secs(),
            -MAX_ABS_SECS - SECS_PER_DAY < r < MAX_ABS_SECS + SECS_PER_DAY,
    {
        proof {
            use_type_invariant(self);
        }
        self.secs + self.offset as i64
    }

    /// The local date, as days since 1970-01-01.
    pub fn local_date(&self) -> (d: i64)
        ensures
            d == self.date(),
            -(MAX_ABS_SECS / SECS_PER_DAY) - 2 <= d <= MAX_ABS_SECS / SECS_PER_DAY + 1,
    {
        let s = self.local_seconds();
        let d = s.checked_div_euclid(SECS_PER_DAY).unwrap();
        assert(-(MAX_ABS_SECS / SECS_PER_DAY) - 2 <= d <= MAX_ABS_SECS / SECS_PER_DAY + 1)
            by (nonlinear_arith)
            requires
                d == s / 86400,
                -MAX_ABS_SECS - SECS_PER_DAY < s < MAX_ABS_SECS + SECS_PER_DAY,
        ;
        d
    }

    /// Seconds since local midnight.
    pub fn local_seconds_of_day(&self) -> (r: i64)
        ensures
            r == self.seconds_of_day(),
            0 <= r < SECS_PER_DAY,
    {
        let s = self.local_seconds();
        s.checked_rem_euclid(SECS_PER_DAY).unwrap()
    }

    /// Nanoseconds within the second.
    pub fn subsec_nanos(&self) -> (r: u32)
        ensures
            r == self.nanosecond(),
            r < 2 * NANOS_PER_SEC,
    {
        proof {
            use_type_invariant(self);
        }
        self.nanos
    }

    /// `self` comes strictly before `other`.
    pub fn is_before(&self, other: &LocalDateTime) -> (r: bool)
        ensures
            r == self.before(*other),
    {
        self.secs < other.secs || (self.secs == other.secs && self.nanos < other.nanos)
    }

    /// The time from `self` to `later` in nanoseconds (negative when
    /// `later` comes first).
    pub fn nanos_to(&self, later: &LocalDateTime) -> (r: i128)
        ensures
            r == self.nanos_until(*later),
            -4 * MAX_ABS_SECS * NANOS_PER_SEC <= r <= 4 * MAX_ABS_SECS * NANOS_PER_SEC,
    {
        proof {
            use_type_invariant(self);
            use_type_invariant(later);
        }
        let ds: i128 = later.secs as i128 - self.secs as i128;
        let dn: i128 = later.nanos as i128 - self.nanos as i128;
        assert(-2 * MAX_ABS_SECS * NANOS_PER_SEC <= ds * 1_000_000_000 <= 2 * MAX_ABS_SECS
            * NANOS_PER_SEC) by (nonlinear_arith)
            requires
                -2 * MAX_ABS_SECS <= ds <= 2 * MAX_ABS_SECS,
        ;
        ds * 1_000_000_000 + dn
    }
}

/// The current time, as raw parts: seconds since the epoch, nanoseconds,
/// offset of the local zone.
///
/// Trusted: calls `chrono::Local::now()` and reads `timestamp()`,
/// `timestamp_subsec_nanos()` and `offset().local_minus_utc()`. The
/// contract claims only the ranges that `chrono` keeps for every value:
/// dates within years -262144..262143, nanoseconds below two billion
/// (above one billion only in a leap second), offsets of less than a day.
/// Which time comes back depends on the clock and is not stated.
#[verifier::external_body]
fn local_now_parts() -> (r: (i64, u32, i32))
    ensures
        valid_parts(r.0 as int, r.1 as int, r.2 as int),
{
    let now = chrono::Local::now();
    (now.timestamp(), now.timestamp_subsec_nanos(), now.offset().local_minus_utc())
}

/// The current time in the local zone.
pub fn now() -> (t: LocalDateTime)
{
    let (secs, nanos, offset) = local_now_parts();
    LocalDateTime { secs, nanos, offset }
}

/// The time that the local wall clock reading `local_secs` (seconds since
/// the epoch on the wall clock) and `nanos` stands for in the local zone,
/// as raw parts; `None` when the reading falls in a gap or a fold of the
/// zone, or out of range.
///
/// Trusted: calls `chrono::Local.from_local_datetime(..)` with the
/// `NaiveDateTime` of that reading and takes `single()`. The contract
/// claims what `chrono` builds the result from: the reading less the
/// zone's offset, so that adding the offset gives the reading back, with
/// the nanoseconds kept. Which offset the zone has is not stated.
#[verifier::external_body]
fn local_from_wall_parts(local_secs: i64, nanos: u32) -> (r: Option<(i64, u32, i32)>)
    requires
        nanos < 2 * NANOS_PER_SEC,
    ensures
        r matches Some(p) ==> {
            &&& p.0 + p.2 == local_secs
            &&& p.1 == nanos
            &&& valid_parts(p.0 as int, p.1 as int, p.2 as int)
        },
{
    let naive = chrono::DateTime::from_timestamp(local_secs, nanos)?.naive_utc();
    let t = chrono::TimeZone::from_local_datetime(&chrono::Local, &naive).single()?;
    Some((t.timestamp(), t.timestamp_subsec_nanos(), t.offset().local_minus_utc()))
}

/// The time in the local zone at which the wall clock reads `local_secs`
/// (seconds since the epoch on the wall clock) and `nanos`; `None` when
/// that reading does not occur exactly once in the zone.
pub fn from_local_wall(local_secs: i64, nanos: u32) -> (r: Option<LocalDateTime>)
    requires
        nanos < 2 * NANOS_PER_SEC,
    ensures
        r matches Some(t) ==> t.local_secs() == local_secs && t.nanosecond() == nanos,
{
    match local_from_wall_parts(local_secs, nanos) {
        Some((secs, n, offset)) => Some(LocalDateTime { secs, nanos: n, offset }),
        None => None,
    }
}

} // verus!
