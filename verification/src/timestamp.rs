//! Points in time, as carried by message descriptors.

use time::format_description::well_known::Rfc3339;
use time::OffsetDateTime;
use vstd::prelude::*;

verus! {

/// Nanoseconds since the Unix epoch at 0000-01-01T00:00:00Z, the first instant
/// that RFC 3339 can write.
pub const RFC3339_MIN: i128 = -62_167_219_200_000_000_000;

/// Nanoseconds since the Unix epoch at 10000-01-01T00:00:00Z, the first instant
/// that RFC 3339 can no longer write.
pub const RFC3339_END: i128 = 253_402_300_800_000_000_000;

/// The RFC 3339 text of the UTC instant `unix_nanos` nanoseconds after the Unix epoch.
pub uninterp spec fn rfc3339(unix_nanos: i128) -> Seq<char>;

/// A UTC instant, in nanoseconds since the Unix epoch.
#[derive(Clone, Copy, Debug, PartialEq, Eq, PartialOrd, Ord, Hash)]
pub struct Timestamp {
    pub unix_nanos: i128,
}

/// Whether RFC 3339 can write the instant: its year lies in 0..=9999.
pub open spec fn rfc3339_writable(t: Timestamp) -> bool {
    RFC3339_MIN <= t.unix_nanos < RFC3339_END
}

/// Calls `OffsetDateTime::from_unix_timestamp_nanos` and formats the result with
/// `Rfc3339`. Both succeed exactly when the year lies in 0..=9999: the conversion
/// accepts every instant of years -9999..=9999, and the formatter refuses a year
/// outside 0..=9999 and nothing else for a UTC offset. The text is named.
#[verifier::external_body]
fn format_rfc3339(unix_nanos: i128) -> (text: Option<String>)
    ensures
        text is Some <==> RFC3339_MIN <= unix_nanos < RFC3339_END,
        text matches Some(t) ==> t@ == rfc3339(unix_nanos),
{
    OffsetDateTime::from_unix_timestamp_nanos(unix_nanos).ok()?.format(&Rfc3339).ok()
}

/// Calls `OffsetDateTime::now_utc`; nothing is stated of the instant it reads.
#[verifier::external_body]
pub(crate) fn now_utc() -> Timestamp {
    Timestamp { unix_nanos: OffsetDateTime::now_utc().unix_timestamp_nanos() }
}

impl Timestamp {
    /// The instant `unix_nanos` nanoseconds after the Unix epoch.
    pub fn from_unix_nanos(unix_nanos: i128) -> (t: Timestamp)
        ensures
            t.unix_nanos == unix_nanos,
    {
        Timestamp { unix_nanos }
    }

    /// The RFC 3339 text of the instant, or `None` when its year is outside 0..=9999.
    pub fn to_rfc3339(&self) -> (text: Option<String>)
        ensures
            text is Some <==> rfc3339_writable(*self),
            text matches Some(t) ==> t@ == rfc3339(self.unix_nanos),
    {
        format_rfc3339(self.unix_nanos)
    }

    /// Whether this instant is strictly before `other`.
    pub fn before(&self, other: &Timestamp) -> (b: bool)
        ensures
            b == (self.unix_nanos < other.unix_nanos),
    {
        self.unix_nanos < other.unix_nanos
    }
}

} // verus!
