//! Building `std::time::Duration` values from the plain numbers the
//! library's parsers produce. The arithmetic on strings is verified; the
//! construction of the opaque standard type is delegated.

use vstd::prelude::*;

verus! {

/// Relies on `std::time::Duration::from_millis`: a duration of exactly this
/// many milliseconds.
#[verifier::external_body]
pub(crate) fn duration_from_millis(millis: u64) -> std::time::Duration {
    std::time::Duration::from_millis(millis)
}

/// Relies on `std::time::Duration::from_secs`: a duration of exactly this
/// many seconds.
#[verifier::external_body]
pub(crate) fn duration_from_secs(secs: u64) -> std::time::Duration {
    std::time::Duration::from_secs(secs)
}

} // verus!
