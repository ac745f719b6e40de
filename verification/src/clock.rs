//! The one place where the library asks the machine for the current time.

use vstd::prelude::*;
use crate::user::Timestamp;

verus! {

/// Relies on `chrono::Utc::now` and `chrono::DateTime::timestamp_millis`:
/// the current wall-clock time, in milliseconds since the Unix epoch.
/// Nothing is promised of the value, since it depends on the machine's
/// clock alone. (`Utc::now` aborts if the clock reads earlier than the
/// epoch; no argument of this function can rule that out.)
#[verifier::external_body]
pub(crate) fn now() -> Timestamp {
    Timestamp { millis: chrono::Utc::now().timestamp_millis() }
}

} // verus!
