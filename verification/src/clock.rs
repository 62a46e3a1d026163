//! The one place the library asks what time it is.

use vstd::prelude::*;

verus! {

/// Relies on chrono: `DateTime::<Utc>::from_timestamp` accepts or refuses a
/// timestamp without panicking, and `to_rfc3339` renders a valid instant as
/// a non-empty RFC 3339 timestamp. The system clock's reading is taken
/// through its fallible interface, and a clock before the epoch or outside
/// chrono's range falls back to the epoch's own rendering, so every call
/// returns. The instant depends on the clock, so nothing is claimed beyond
/// what holds of every outcome: the rendering is never empty.
#[verifier::external_body]
pub fn now_rfc3339() -> (r: String)
    ensures
        r@.len() > 0,
{
    let since_epoch = std::time::SystemTime::now().duration_since(std::time::UNIX_EPOCH);
    let instant = match since_epoch {
        Ok(d) => chrono::DateTime::<chrono::Utc>::from_timestamp(
            d.as_secs() as i64,
            d.subsec_nanos(),
        ),
        Err(_) => None,
    };
    match instant {
        Some(t) => t.to_rfc3339(),
        None => String::from("1970-01-01T00:00:00+00:00"),
    }
}

} // verus!
