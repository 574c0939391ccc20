//! Points in time, held as whole seconds since the Unix epoch and the
//! nanoseconds into that second, and their single-integer nanosecond form.

use vstd::prelude::*;
use vstd::arithmetic::div_mod::lemma_fundamental_div_mod_converse;

verus! {

/// Nanoseconds in one second.
pub const NANOS_PER_SECOND: u32 = 1_000_000_000;

/// A point in time: `seconds` since 1970-01-01 00:00:00 UTC (negative
/// before it) and `nanos` nanoseconds into that second.
#[derive(Debug, Clone, Copy, PartialEq, Eq, Structural)]
pub struct Timestamp {
    pub seconds: i64,
    pub nanos: u32,
}

impl Timestamp {
    /// The nanosecond part stays below one second.
    pub open spec fn wf(self) -> bool {
        self.nanos < NANOS_PER_SECOND
    }

    /// Nanoseconds since the Unix epoch, as a mathematical integer.
    pub open spec fn total_nanos(self) -> int {
        self.seconds * (NANOS_PER_SECOND as int) + self.nanos
    }

    /// Whether the nanoseconds since the epoch fit in an `i64`.
    pub open spec fn fits_nanos(self) -> bool {
        self.wf() && i64::MIN <= self.total_nanos() <= i64::MAX
    }

    /// The point in time that lies `nanos` nanoseconds from the epoch.
    pub open spec fn of_nanos(nanos: i64) -> Timestamp {
        Timestamp {
            seconds: (nanos as int / (NANOS_PER_SECOND as int)) as i64,
            nanos: (nanos as int % (NANOS_PER_SECOND as int)) as u32,
        }
    }

    pub fn new(seconds: i64, nanos: u32) -> (t: Timestamp)
        ensures
            t.seconds == seconds,
            t.nanos == nanos,
    {
        Timestamp { seconds, nanos }
    }

    /// The point in time `nanos` nanoseconds from the epoch. Every `i64`
    /// has one.
    pub fn from_nanos(nanos: i64) -> (t: Timestamp)
        ensures
            t == Timestamp::of_nanos(nanos),
            t.wf(),
            t.total_nanos() == nanos,
    {
        let parts = split_unix_nanos(nanos);
        proof {
            lemma_of_nanos(nanos);
        }
        Timestamp { seconds: parts.0, nanos: parts.1 }
    }

    /// Nanoseconds since the epoch, where they fit in an `i64`.
    pub fn to_nanos(&self) -> (total: Option<i64>)
        ensures
            self.fits_nanos() ==> total == Some(self.total_nanos() as i64),
            !self.fits_nanos() ==> total is None,
    {
        if self.nanos >= NANOS_PER_SECOND {
            None
        } else {
            join_unix_nanos(self.seconds, self.nanos)
        }
    }

    /// The time that lies `seconds` whole seconds and `nanos` nanoseconds
    /// after the epoch; none where `nanos` is a second or more or the
    /// seconds are more than an `i64` holds.
    pub fn after_epoch(seconds: u64, nanos: u32) -> (t: Option<Timestamp>)
        ensures
            match t {
                Some(t) => t.wf() && t.seconds == seconds && t.nanos == nanos,
                None => nanos >= NANOS_PER_SECOND || seconds > i64::MAX,
            },
    {
        if nanos >= NANOS_PER_SECOND || seconds > 9_223_372_036_854_775_807u64 {
            None
        } else {
            Some(Timestamp { seconds: seconds as i64, nanos })
        }
    }

    /// The time that lies `seconds` whole seconds and `nanos` nanoseconds
    /// before the epoch; none where `nanos` is a second or more or no `i64`
    /// holds the seconds of that time.
    pub fn before_epoch(seconds: u64, nanos: u32) -> (t: Option<Timestamp>)
        ensures
            match t {
                Some(t) => nanos < NANOS_PER_SECOND && t.wf() && t.total_nanos() == -(seconds * (
                NANOS_PER_SECOND as int) + nanos),
                None => nanos >= NANOS_PER_SECOND || -seconds - (if nanos == 0 {
                    0int
                } else {
                    1int
                }) < i64::MIN,
            },
    {
        if nanos >= NANOS_PER_SECOND {
            None
        } else if nanos == 0 {
            if seconds > 9_223_372_036_854_775_808u64 {
                None
            } else if seconds == 9_223_372_036_854_775_808u64 {
                Some(Timestamp { seconds: i64::MIN, nanos: 0 })
            } else {
                Some(Timestamp { seconds: -(seconds as i64), nanos: 0 })
            }
        } else if seconds > 9_223_372_036_854_775_807u64 {
            None
        } else {
            Some(Timestamp { seconds: -(seconds as i64) - 1, nanos: NANOS_PER_SECOND - nanos })
        }
    }

    /// The well-formed time that lies `seconds` seconds and `nanos`
    /// nanoseconds from the epoch, where `nanos` may be a second or more:
    /// whole seconds among the nanoseconds are counted to the seconds. None
    /// where no `i64` holds the seconds of that time.
    pub fn carried(seconds: i64, nanos: u32) -> (t: Option<Timestamp>)
        ensures
            match t {
                Some(t) => t.wf() && t.total_nanos() == seconds * (NANOS_PER_SECOND as int)
                    + nanos,
                None => seconds + nanos as int / (NANOS_PER_SECOND as int) > i64::MAX,
            },
    {
        let carry = (nanos / NANOS_PER_SECOND) as i64;
        let rest = nanos % NANOS_PER_SECOND;
        if seconds > i64::MAX - carry {
            None
        } else {
            Some(Timestamp { seconds: seconds + carry, nanos: rest })
        }
    }

    /// The current time of the system clock. Whatever the clock reads, the
    /// time is well formed: its nanosecond part stays below one second.
    pub fn now() -> (t: Timestamp)
        ensures
            t.wf(),
    {
        let parts = clock_parts();
        Timestamp { seconds: parts.0, nanos: parts.1 }
    }
}

/// Splitting a nanosecond count into seconds and nanoseconds loses nothing.
pub proof fn lemma_of_nanos(nanos: i64)
    ensures
        Timestamp::of_nanos(nanos).wf(),
        Timestamp::of_nanos(nanos).total_nanos() == nanos,
        Timestamp::of_nanos(nanos).fits_nanos(),
        Timestamp::of_nanos(nanos).seconds == nanos as int / (NANOS_PER_SECOND as int),
        Timestamp::of_nanos(nanos).nanos == nanos as int % (NANOS_PER_SECOND as int),
{
    let d = NANOS_PER_SECOND as int;
    let n = nanos as int;
    vstd::arithmetic::div_mod::lemma_fundamental_div_mod(n, d);
    vstd::arithmetic::div_mod::lemma_mod_bound(n, d);
    let q = n / d;
    let r = n % d;
    assert(n == d * q + r);
    assert(0 <= r < d);
    assert(-9_223_372_037 <= q <= 9_223_372_036) by (nonlinear_arith)
        requires
            n == d * q + r,
            0 <= r < d,
            d == 1_000_000_000,
            -9_223_372_036_854_775_808 <= n <= 9_223_372_036_854_775_807,
    ;
    assert(q * d == d * q) by (nonlinear_arith);
}

/// A well-formed time whose nanosecond count fits in an `i64` is found
/// again from that count.
pub proof fn lemma_nanos_round_trip(t: Timestamp)
    requires
        t.fits_nanos(),
    ensures
        Timestamp::of_nanos(t.total_nanos() as i64) == t,
{
    let d = NANOS_PER_SECOND as int;
    lemma_fundamental_div_mod_converse(t.total_nanos(), d, t.seconds as int, t.nanos as int);
}

/// `chrono::DateTime::from_timestamp_nanos`, read back through `timestamp`
/// and `timestamp_subsec_nanos`: the seconds are the floored quotient of
/// the count by one billion, the nanoseconds the non-negative remainder.
#[verifier::external_body]
fn split_unix_nanos(nanos: i64) -> (parts: (i64, u32))
    ensures
        parts.0 == nanos as int / (NANOS_PER_SECOND as int),
        parts.1 == nanos as int % (NANOS_PER_SECOND as int),
{
    let moment = chrono::DateTime::from_timestamp_nanos(nanos);
    (moment.timestamp(), moment.timestamp_subsec_nanos())
}

/// `chrono::DateTime::from_timestamp` followed by `timestamp_nanos_opt`:
/// the nanoseconds since the epoch, or nothing where they leave the range
/// of `i64`. A time that chrono cannot hold at all lies far outside that
/// range.
#[verifier::external_body]
fn join_unix_nanos(seconds: i64, nanos: u32) -> (total: Option<i64>)
    requires
        nanos < NANOS_PER_SECOND,
    ensures
        i64::MIN <= seconds * (NANOS_PER_SECOND as int) + nanos <= i64::MAX ==> total == Some(
            (seconds * (NANOS_PER_SECOND as int) + nanos) as i64,
        ),
        !(i64::MIN <= seconds * (NANOS_PER_SECOND as int) + nanos <= i64::MAX) ==> total is None,
{
    match chrono::DateTime::from_timestamp(seconds, nanos) {
        Some(moment) => moment.timestamp_nanos_opt(),
        None => None,
    }
}

/// The system clock, read by `std::time::SystemTime::now` and turned by
/// chrono's conversion from `SystemTime` into seconds and nanoseconds since
/// the epoch, seconds below zero for a clock that stands before 1970. Of a
/// clock's reading only this is promised: the nanoseconds are less than one
/// second. The conversion stops the program only for a time that chrono
/// cannot hold, more than 262 000 years from the epoch.
#[verifier::external_body]
fn clock_parts() -> (parts: (i64, u32))
    ensures
        parts.1 < NANOS_PER_SECOND,
{
    let moment = chrono::DateTime::<chrono::Utc>::from(std::time::SystemTime::now());
    (moment.timestamp(), moment.timestamp_subsec_nanos())
}

} // verus!
