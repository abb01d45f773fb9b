//! What the engine takes from its host: fresh identifiers, the time, and
//! random choices. Nothing here is proved; each function says what it
//! relies on.

use vstd::prelude::*;

verus! {

/// A new random identifier.
///
/// Calls `uuid::Uuid::new_v4` and packs the 128 bits of the UUID into an
/// integer with `Uuid::as_u128`. Nothing is claimed of the value: two calls
/// may, with negligible probability, return the same one.
#[verifier::external_body]
pub(crate) fn fresh_id() -> (id: u128) {
    uuid::Uuid::new_v4().as_u128()
}

/// The current time in milliseconds since the Unix epoch.
///
/// Calls `chrono::Utc::now` and `DateTime::timestamp_millis`. Nothing is
/// claimed of the value: the clock of the host may stand anywhere and may
/// go backwards.
#[verifier::external_body]
pub(crate) fn now_millis() -> (now: i64) {
    chrono::Utc::now().timestamp_millis()
}

/// A random index below `bound`.
///
/// Calls `rand::Rng::gen_range` on `rand::thread_rng()` with the range
/// `0..bound`. The method returns a value of the range it is given, and
/// panics if that range is empty, which `bound > 0` rules out.
#[verifier::external_body]
pub(crate) fn random_index(bound: usize) -> (index: usize)
    requires
        bound > 0,
    ensures
        index < bound,
{
    rand::Rng::gen_range(&mut rand::thread_rng(), 0..bound)
}

} // verus!
