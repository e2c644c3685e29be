//! Instants carried with frames and detections.

use vstd::prelude::*;

verus! {

/// An instant with the UTC offset it was written in.
#[derive(Clone, Copy, Debug, PartialEq, Eq, Structural)]
pub struct Timestamp {
    /// Whole seconds since the Unix epoch.
    pub unix_seconds: i64,
    /// Nanoseconds past `unix_seconds`; a leap second reaches past one billion.
    pub nanos: u32,
    /// Seconds east of UTC.
    pub offset_seconds: i32,
}

/// The instant and offset, as (seconds, nanoseconds, offset seconds), that an
/// RFC 3339 text denotes, or `None` where the text is not RFC 3339.
pub uninterp spec fn rfc3339_instant(s: Seq<char>) -> Option<(int, int, int)>;

pub open spec fn instant_of(t: Timestamp) -> (int, int, int) {
    (t.unix_seconds as int, t.nanos as int, t.offset_seconds as int)
}

/// Relies on chrono's `DateTime::parse_from_rfc3339`: it reads the text
/// alone, and yields the instant and offset it denotes or an error.
#[verifier::external_body]
fn chrono_parse_rfc3339(s: &str) -> (r: Option<Timestamp>)
    ensures
        r is Some <==> rfc3339_instant(s@) is Some,
        r matches Some(t) ==> rfc3339_instant(s@) == Some(instant_of(t)),
{
    match chrono::DateTime::parse_from_rfc3339(s) {
        Ok(t) => Some(
            Timestamp {
                unix_seconds: t.timestamp(),
                nanos: t.timestamp_subsec_nanos(),
                offset_seconds: t.offset().local_minus_utc(),
            },
        ),
        Err(_) => None,
    }
}

impl Timestamp {
    /// Reads an RFC 3339 date-time with its offset.
    pub fn from_rfc3339(s: &str) -> (r: Option<Timestamp>)
        ensures
            r is Some <==> rfc3339_instant(s@) is Some,
            r matches Some(t) ==> rfc3339_instant(s@) == Some(instant_of(t)),
    {
        chrono_parse_rfc3339(s)
    }
}

} // verus!
