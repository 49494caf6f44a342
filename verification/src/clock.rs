//! The wall clock, behind a trusted wrapper. The engine never relies on what
//! the clock returns: every handler takes the reading as a plain argument
//! and is verified for any value of it.

use vstd::prelude::*;

verus! {

/// Relies on chrono::Utc::now and chrono::DateTime::timestamp: the current
/// wall-clock time as whole non-leap seconds since the Unix epoch. Nothing
/// is promised of the reading.
#[verifier::external_body]
pub(crate) fn now_timestamp() -> i64 {
    chrono::Utc::now().timestamp()
}

} // verus!
