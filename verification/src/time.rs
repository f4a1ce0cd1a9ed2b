//! Rendering session deadlines as RFC 3339 instants.  The wall clock
//! itself is read outside the library and handed in as plain nanosecond
//! counts; only the formatting of a deadline goes through the date-time
//! crate, behind a trusted wrapper.

use vstd::prelude::*;

use crate::errors::SentinelError;
use crate::session::Session;

verus! {

/// The smallest instant the date-time crate can represent, in nanoseconds
/// since the Unix epoch (midnight opening the year -9999, widened by the
/// largest representable zone offset).
pub const TIMESTAMP_MIN_NS: i128 = -377_705_023_201_000_000_000;

/// The largest representable instant, in nanoseconds since the Unix epoch
/// (the last nanosecond of the year 9999, narrowed by the largest zone
/// offset).
pub const TIMESTAMP_MAX_NS: i128 = 253_402_207_200_999_999_999;

/// The RFC 3339 rendering of an instant: a pure function of the
/// nanosecond count alone.
pub uninterp spec fn rfc3339_of(ns: int) -> Seq<char>;

/// Relies on jiff's `Timestamp::from_nanosecond` and the RFC 3339
/// `Display` of `Timestamp`: construction succeeds on the whole
/// representable range, and the rendering depends on the nanosecond
/// count alone.
#[verifier::external_body]
fn format_timestamp_ns(ns: i128) -> (r: String)
    requires
        TIMESTAMP_MIN_NS <= ns <= TIMESTAMP_MAX_NS,
    ensures
        r@ == rfc3339_of(ns as int),
{
    match jiff::Timestamp::from_nanosecond(ns) {
        Ok(t) => t.to_string(),
        Err(_) => String::new(),
    }
}

/// The two strings a session shows on the control surface: its function
/// name, and its deadline as an RFC 3339 instant.
pub fn session_display(s: &Session) -> (r: Result<(String, String), SentinelError>)
    ensures
        r is Ok <==> TIMESTAMP_MIN_NS <= s@.ends_at <= TIMESTAMP_MAX_NS,
        r matches Ok(p) ==> p.0@ == s@.function_name && p.1@ == rfc3339_of(s@.ends_at),
        r matches Err(e) ==> e is InvalidInput,
    {
    if TIMESTAMP_MIN_NS <= s.ends_at && s.ends_at <= TIMESTAMP_MAX_NS {
        Ok((s.function_name.clone(), format_timestamp_ns(s.ends_at)))
    } else {
        Err(
            SentinelError::InvalidInput(
                "session deadline is outside the representable range".to_owned(),
            ),
        )
    }
}

} // verus!
