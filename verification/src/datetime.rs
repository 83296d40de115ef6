//! Points in time as plain integers, and the one call into `chrono` that
//! reads a timestamp out of the text Postgres writes for a `tstzrange` bound.

use vstd::prelude::*;

verus! {

/// An instant in UTC: whole seconds since the Unix epoch, and the
/// nanoseconds within that second. It stands for `chrono::DateTime<Utc>`,
/// which is determined by exactly these two numbers.
#[derive(Clone, Copy, Debug, PartialEq, Eq, Structural)]
pub struct UtcDateTime {
    pub timestamp: i64,
    pub nanos: u32,
}

/// An instant together with the UTC offset (in seconds) it was written in.
/// It stands for `chrono::DateTime<FixedOffset>`: `timestamp` and `nanos`
/// describe the instant itself, independent of `offset`.
#[derive(Clone, Copy, Debug, PartialEq, Eq, Structural)]
pub struct FixedDateTime {
    pub timestamp: i64,
    pub nanos: u32,
    pub offset: i32,
}

impl FixedDateTime {
    /// The same instant, seen in UTC (what `with_timezone(&Utc)` does:
    /// the instant is kept and only the offset is dropped).
    pub fn with_timezone_utc(&self) -> (r: UtcDateTime)
        ensures
            r == (UtcDateTime { timestamp: self.timestamp, nanos: self.nanos }),
    {
        UtcDateTime { timestamp: self.timestamp, nanos: self.nanos }
    }
}

/// What `chrono::DateTime::<FixedOffset>::parse_from_str(s, fmt)` returns,
/// written as (UTC timestamp, subsecond nanoseconds, offset in seconds),
/// or `None` where chrono reports a parse error.
pub uninterp spec fn chrono_parse_from_str(s: Seq<char>, fmt: Seq<char>) -> Option<(i64, u32, i32)>;

/// Calls `chrono::DateTime::parse_from_str(s, fmt)`. The contract claims only
/// that the result is a function of the two texts, named
/// `chrono_parse_from_str`; which texts chrono accepts is left to chrono.
#[verifier::external_body]
fn parse_from_str(s: &str, fmt: &str) -> (r: Option<(i64, u32, i32)>)
    ensures
        r == chrono_parse_from_str(s@, fmt@),
{
    match chrono::DateTime::parse_from_str(s, fmt) {
        Ok(dt) => Some((dt.timestamp(), dt.timestamp_subsec_nanos(), dt.offset().local_minus_utc())),
        Err(_) => None,
    }
}

/// The format in which Postgres prints a `timestamptz` bound of a range,
/// such as `2023-08-16 22:00:00+00`.
pub open spec fn datetime_format() -> Seq<char> {
    "%Y-%m-%d %H:%M:%S%#z"@
}

/// The instant that `parse_datetime` reads from `s`, if any.
pub open spec fn spec_parse_datetime(s: Seq<char>) -> Option<UtcDateTime> {
    match chrono_parse_from_str(s, datetime_format()) {
        Some((t, n, _offset)) => Some(UtcDateTime { timestamp: t, nanos: n }),
        None => None,
    }
}

/// Turns what chrono returned for a timestamp text into the UTC instant, or
/// `Err(())` where chrono refused the text.
pub fn datetime_from_parsed(parsed: Option<(i64, u32, i32)>) -> (r: Result<UtcDateTime, ()>)
    ensures
        match parsed {
            Some((t, n, _o)) => r == Ok::<UtcDateTime, ()>(UtcDateTime { timestamp: t, nanos: n }),
            None => r == Err::<UtcDateTime, ()>(()),
        },
{
    match parsed {
        Some((timestamp, nanos, offset)) => {
            let fixed = FixedDateTime { timestamp, nanos, offset };
            Ok(fixed.with_timezone_utc())
        },
        None => Err(()),
    }
}

/// Reads a timestamp written as `%Y-%m-%d %H:%M:%S%#z` (for example
/// `2023-07-23 22:00:00+00`) and returns it as an instant in UTC.
pub fn parse_datetime(s: &str) -> (r: Result<UtcDateTime, ()>)
    ensures
        match spec_parse_datetime(s@) {
            Some(t) => r == Ok::<UtcDateTime, ()>(t),
            None => r == Err::<UtcDateTime, ()>(()),
        },
        r is Ok <==> chrono_parse_from_str(s@, "%Y-%m-%d %H:%M:%S%#z"@) is Some,
        r matches Ok(t) ==> chrono_parse_from_str(s@, "%Y-%m-%d %H:%M:%S%#z"@) matches Some(
            (ts, ns, _offset),
        ) && t.timestamp == ts && t.nanos == ns,
{
    let parsed = parse_from_str(s, "%Y-%m-%d %H:%M:%S%#z");
    datetime_from_parsed(parsed)
}

/// A text reads as an instant exactly when chrono parses it in the format
/// `%Y-%m-%d %H:%M:%S%#z`, and the instant is then chrono's UTC timestamp
/// and nanoseconds: no instant chrono reads is refused, whatever its value,
/// and the offset it was written in changes nothing but the instant.
pub proof fn lemma_parse_datetime_is_chrono(s: Seq<char>)
    ensures
        spec_parse_datetime(s) is Some <==> chrono_parse_from_str(s, "%Y-%m-%d %H:%M:%S%#z"@) is Some,
        forall|t: i64, n: u32, o: i32|
            chrono_parse_from_str(s, "%Y-%m-%d %H:%M:%S%#z"@) == Some((t, n, o)) ==> spec_parse_datetime(s)
                == Some(UtcDateTime { timestamp: t, nanos: n }),
{
}

} // verus!
