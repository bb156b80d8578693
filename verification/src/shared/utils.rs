//! Small utilities: the wall clock, random identifiers, and string
//! comparison.

use vstd::prelude::*;

verus! {

/// Current wall-clock time in milliseconds since the Unix epoch, or 0 if the
/// clock reads earlier than the epoch.
///
/// Relies on std's `SystemTime`: the value depends on the clock, so nothing
/// is promised of it.
#[verifier::external_body]
pub fn timestamp_millis() -> u64 {
    match std::time::SystemTime::now().duration_since(std::time::UNIX_EPOCH) {
        Ok(d) => d.as_millis() as u64,
        Err(_) => 0,
    }
}

/// The `uuid::Uuid` type, opaque to the verifier.
#[verifier::external_type_specification]
#[verifier::external_body]
pub struct ExUuid(uuid::Uuid);

/// A fresh random identifier.
///
/// Relies on uuid's `Uuid::new_v4`: the value is random, so nothing is
/// promised of it.
#[verifier::external_body]
pub fn generate_id() -> uuid::Uuid {
    uuid::Uuid::new_v4()
}

/// Whether two string slices hold the same characters.
///
/// Relies on str's `PartialEq`: two slices compare equal exactly when their
/// character sequences are equal.
#[verifier::external_body]
pub(crate) fn str_eq(a: &str, b: &str) -> (r: bool)
    ensures
        r == (a@ == b@),
{
    a == b
}

} // verus!
