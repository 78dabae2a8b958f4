//! The wall clock.

use chrono::Utc;
use vstd::prelude::*;

verus! {

/// `Utc::now` of chrono, read with `timestamp_millis`: the milliseconds from
/// the Unix epoch to the moment of the call. The value depends on when it is
/// asked for, so nothing is promised of it.
#[verifier::external_body]
pub(crate) fn now_millis() -> i64 {
    Utc::now().timestamp_millis()
}

} // verus!
