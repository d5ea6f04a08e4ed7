//! Points in time, as S3 reports them and as the state database stores them.

use vstd::prelude::*;

verus! {

/// The first second of the year -262143, the earliest that `chrono` can hold.
pub const MIN_UNIX_SECONDS: i64 = -8_334_601_228_800;

/// The last second of the year 262142, the latest that `chrono` can hold.
pub const MAX_UNIX_SECONDS: i64 = 8_210_266_876_799;

/// A point in time: seconds since the Unix epoch, and nanoseconds since that second began.
pub struct Moment {
    pub secs: int,
    pub nanos: int,
}

/// Whether `chrono` can hold the moment. A nanosecond part of one second or more stands for a leap
/// second, which only the last second of a minute can have.
pub open spec fn representable(secs: int, nanos: int) -> bool {
    &&& MIN_UNIX_SECONDS <= secs <= MAX_UNIX_SECONDS
    &&& 0 <= nanos < 2_000_000_000
    &&& nanos >= 1_000_000_000 ==> secs % 60 == 59
}

/// The moment `nanos` nanoseconds into the second `secs`, or the Unix epoch where there is no such
/// moment.
pub open spec fn moment_at(secs: int, nanos: int) -> Moment {
    if representable(secs, nanos) {
        Moment { secs, nanos }
    } else {
        Moment { secs: 0, nanos: 0 }
    }
}

/// Calls `chrono::DateTime::<Utc>::from_timestamp` and reads the result back through `timestamp`
/// and `timestamp_subsec_nanos`. Claims that there is a result exactly for a representable moment,
/// and that it reads back as the seconds and nanoseconds that went in.
#[verifier::external_body]
fn chrono_from_timestamp(secs: i64, nanos: u32) -> (parts: Option<(i64, u32)>)
    ensures
        parts == (if representable(secs as int, nanos as int) {
            Some((secs, nanos))
        } else {
            None
        }),
{
    chrono::DateTime::from_timestamp(secs, nanos).map(
        |at| (at.timestamp(), at.timestamp_subsec_nanos()),
    )
}

/// Calls `chrono::DateTime::<Utc>::default` and reads the result back through `timestamp` and
/// `timestamp_subsec_nanos`. Claims that it is the Unix epoch.
#[verifier::external_body]
fn chrono_default() -> (parts: (i64, u32))
    ensures
        parts == (0i64, 0u32),
{
    let at = chrono::DateTime::<chrono::Utc>::default();
    (at.timestamp(), at.timestamp_subsec_nanos())
}

/// A point in time in UTC that `chrono` can hold.
#[derive(Clone, Copy, Debug, PartialEq, Eq)]
pub struct Timestamp {
    secs: i64,
    nanos: u32,
}

impl View for Timestamp {
    type V = Moment;

    closed spec fn view(&self) -> Moment {
        Moment { secs: self.secs as int, nanos: self.nanos as int }
    }
}

impl Timestamp {
    #[verifier::type_invariant]
    closed spec fn valid(self) -> bool {
        representable(self.secs as int, self.nanos as int)
    }

    /// The moment `nanos` nanoseconds into the Unix second `secs`, or the Unix epoch where there is
    /// no such moment.
    pub fn from_timestamp(secs: i64, nanos: u32) -> (at: Timestamp)
        ensures
            at@ == moment_at(secs as int, nanos as int),
            -8_334_601_228_800 <= secs <= 8_210_266_876_799 && nanos < 1_000_000_000 ==> at@.secs
                == secs && at@.nanos == nanos,
            secs < -8_334_601_228_800 || secs > 8_210_266_876_799 ==> at@.secs == 0 && at@.nanos
                == 0,
    {
        match chrono_from_timestamp(secs, nanos) {
            Some((secs, nanos)) => Timestamp { secs, nanos },
            None => {
                let (secs, nanos) = chrono_default();
                Timestamp { secs, nanos }
            },
        }
    }

    /// Whole seconds since the Unix epoch.
    pub fn timestamp(&self) -> (secs: i64)
        ensures
            secs == self@.secs,
            representable(self@.secs, self@.nanos),
    {
        proof {
            use_type_invariant(self);
        }
        self.secs
    }

    /// Nanoseconds since the second began.
    pub fn timestamp_subsec_nanos(&self) -> (nanos: u32)
        ensures
            nanos == self@.nanos,
            representable(self@.secs, self@.nanos),
    {
        proof {
            use_type_invariant(self);
        }
        self.nanos
    }
}

/// A moment is the second and the nanosecond that were asked for wherever the second lies from the start
/// of the year -262143 to the end of the year 262142 and the nanosecond within it, or in the leap second
/// that follows the last second of a minute. Everything else is the Unix epoch.
pub proof fn law_moment_is_what_was_asked_for(secs: int, nanos: int)
    requires
        nanos >= 0,
    ensures
        ({
            let at = moment_at(secs, nanos);
            let is_in_range = -8_334_601_228_800 <= secs <= 8_210_266_876_799;
            let is_leap = secs % 60 == 59 && 1_000_000_000 <= nanos < 2_000_000_000;
            &&& is_in_range && (nanos < 1_000_000_000 || is_leap) ==> at.secs == secs && at.nanos
                == nanos
            &&& !(is_in_range && (nanos < 1_000_000_000 || is_leap)) ==> at.secs == 0 && at.nanos
                == 0
        }),
{
}

} // verus!
