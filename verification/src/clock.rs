//! The one place the core reads the wall clock.

use vstd::prelude::*;

verus! {

/// Relies on `chrono::Utc::now` and `DateTime::timestamp`: the current
/// wall-clock time as whole seconds since the Unix epoch.  Nothing is
/// promised of the value; every caller states what holds of any
/// timestamp it is handed.
#[verifier::external_body]
pub(crate) fn now_timestamp() -> i64 {
    chrono::Utc::now().timestamp()
}

} // verus!
