//! The wall clock, as the one thing this crate asks of it.

use vstd::prelude::*;

verus! {

/// Trusted. Calls chrono's `Utc::now()` and renders the instant with
/// `DateTime::to_rfc3339`. The text depends on when it is called, so the
/// contract claims only what holds of every instant: that there is text,
/// since the rendering starts with the year. chrono panics if the system
/// clock stands before 1970.
#[verifier::external_body]
pub(crate) fn current_timestamp() -> (text: String)
    ensures
        text@.len() > 0,
{
    chrono::Utc::now().to_rfc3339()
}

} // verus!
